use xtask_base::ci::{Tasks, CI};
use xtask_base::platform::Platform;
use xtask_base::step::upload_artifact;
use xtask_base::toolchain::rust_toolchain;

const PREAMBLE_173: &str = "    - uses: actions/checkout@v3\n    - uses: ructions/toolchain@v2\n      with:\n        toolchain: 1.73\n        profile: minimal\n        default: true\n";
const CACHE: &str = "    - uses: Swatinem/rust-cache@v2\n";
const TESTS: &str = "    - run: cargo xtask codegen --check\n    - run: cargo clippy --all-targets -- -D warnings -D clippy::all\n    - run: cargo test\n    - run: cargo build --all-targets\n    - run: cargo doc\n";
const RELEASE_TESTS: &str = "    - run: cargo test --benches --tests --release\n";

/// The names under which jobs stand in a workflow document.
fn identities(document: &str) -> Vec<String> {
    document
        .lines()
        .filter(|line| line.starts_with("  ") && !line.starts_with("   ") && line.ends_with(':'))
        .map(|line| line.trim().trim_end_matches(':').to_string())
        .collect()
}

fn standard_document() -> String {
    let mut expected = String::from("name: ci-tests\non: [push, pull_request]\njobs:\n");
    for platform in ["ubuntu-latest", "macos-latest", "windows-latest"] {
        expected += &format!("  tests-{platform}:\n    runs-on: {platform}\n    steps:\n");
        expected += PREAMBLE_173;
        expected += "        components: clippy\n";
        expected += CACHE;
        expected += TESTS;
    }
    for platform in ["ubuntu-latest", "macos-latest", "windows-latest"] {
        expected += &format!("  release-tests-{platform}:\n    runs-on: {platform}\n    steps:\n");
        expected += PREAMBLE_173;
        expected += CACHE;
        expected += RELEASE_TESTS;
    }
    expected += "  lints-ubuntu-latest:\n    runs-on: ubuntu-latest\n    steps:\n";
    expected += "    - uses: actions/checkout@v3\n    - uses: ructions/toolchain@v2\n      with:\n        toolchain: nightly-2023-10-14\n        profile: minimal\n        default: true\n        components: rustfmt\n";
    expected += CACHE;
    expected += "    - run: cargo fmt --all -- --check\n    - run: cargo install cargo-udeps --locked --version 0.1.43\n    - run: cargo udeps --all-targets\n";
    expected
}

#[test]
fn standard_workflow_document() {
    assert_eq!(CI::standard_workflow().into_workflow().to_string(), standard_document());
}

#[test]
fn standard_workflow_has_one_lint_job_and_two_jobs_per_platform() {
    let names = identities(&CI::standard_workflow().into_workflow().to_string());
    let platforms = Platform::latest().len();
    assert_eq!(names.len(), 1 + 2 * platforms);
    assert_eq!(names.iter().filter(|n| n.starts_with("tests-")).count(), platforms);
    assert_eq!(names.iter().filter(|n| n.starts_with("release-tests-")).count(), platforms);
    assert_eq!(names.iter().filter(|n| n.starts_with("lints-")).count(), 1);
    let mut unique = names.clone();
    unique.sort();
    unique.dedup();
    assert_eq!(unique.len(), names.len());
}

#[test]
fn standard_workflow_is_its_three_parts() {
    let parts = CI::new()
        .standard_tests("1.73")
        .standard_release_tests("1.73")
        .standard_lints("nightly-2023-10-14", "0.1.43");
    assert_eq!(
        parts.into_workflow().to_string(),
        CI::standard_workflow().into_workflow().to_string()
    );
}

#[test]
fn identities_survive_rendering_again() {
    let first = CI::standard_workflow().into_workflow().to_string();
    let second = CI::standard_workflow().into_workflow().to_string();
    assert_eq!(first, second);
    assert_eq!(identities(&first), identities(&second));
    assert_eq!(
        identities(&first),
        vec![
            "tests-ubuntu-latest",
            "tests-macos-latest",
            "tests-windows-latest",
            "release-tests-ubuntu-latest",
            "release-tests-macos-latest",
            "release-tests-windows-latest",
            "lints-ubuntu-latest",
        ]
    );
}

#[test]
fn same_task_name_on_two_platforms_gives_two_jobs() {
    let ci = CI::new()
        .job(Tasks::new("tests", Platform::UbuntuLatest, rust_toolchain("stable")))
        .job(Tasks::new("tests", Platform::WindowsLatest, rust_toolchain("stable")));
    let document = ci.into_workflow().to_string();
    assert_eq!(identities(&document), vec!["tests-ubuntu-latest", "tests-windows-latest"]);
    assert!(document.contains("  tests-ubuntu-latest:\n    runs-on: ubuntu-latest\n"));
    assert!(document.contains("  tests-windows-latest:\n    runs-on: windows-latest\n"));
}

#[test]
fn standard_lints_use_the_given_versions() {
    let document = CI::new().standard_lints("nightly", "9.9.9").into_workflow().to_string();
    assert_eq!(
        document,
        "name: ci-tests\non: [push, pull_request]\njobs:\n  lints-ubuntu-latest:\n    runs-on: ubuntu-latest\n    steps:\n    - uses: actions/checkout@v3\n    - uses: ructions/toolchain@v2\n      with:\n        toolchain: nightly\n        profile: minimal\n        default: true\n        components: rustfmt\n    - uses: Swatinem/rust-cache@v2\n    - run: cargo fmt --all -- --check\n    - run: cargo install cargo-udeps --locked --version 9.9.9\n    - run: cargo udeps --all-targets\n"
    );
}

#[test]
fn standard_tests_add_to_the_jobs_that_are_there() {
    let ci = CI::new()
        .job(Tasks::new("first", Platform::MacOSLatest, rust_toolchain("stable")))
        .standard_release_tests("1.70");
    let names = identities(&ci.into_workflow().to_string());
    assert_eq!(
        names,
        vec![
            "first-macos-latest",
            "release-tests-ubuntu-latest",
            "release-tests-macos-latest",
            "release-tests-windows-latest",
        ]
    );
}

#[test]
fn job_and_add_job_agree() {
    let mut a = CI::new();
    a.add_job(Tasks::new("j", Platform::UbuntuLatest, rust_toolchain("stable")).tests());
    let b = CI::new().job(Tasks::new("j", Platform::UbuntuLatest, rust_toolchain("stable")).tests());
    assert_eq!(a.into_workflow().to_string(), b.into_workflow().to_string());
}

#[test]
fn empty_pipeline_is_a_workflow_without_jobs() {
    assert_eq!(
        CI::new().into_workflow().to_string(),
        "name: ci-tests\non: [push, pull_request]\njobs:\n"
    );
}

#[test]
fn tasks_begin_with_the_toolchain_preamble() {
    let ci = CI::new().job(
        Tasks::new("build", Platform::UbuntuLatest, rust_toolchain("stable").wasm())
            .cmd("cargo", &["build"])
            .step(upload_artifact("site", "dist"))
            .script(&[&["a"], &["b", "c"]]),
    );
    assert_eq!(
        ci.into_workflow().to_string(),
        "name: ci-tests\non: [push, pull_request]\njobs:\n  build-ubuntu-latest:\n    runs-on: ubuntu-latest\n    steps:\n    - uses: actions/checkout@v3\n    - uses: ructions/toolchain@v2\n      with:\n        toolchain: stable\n        targets: wasm32-unknown-unknown\n    - uses: Swatinem/rust-cache@v2\n    - run: cargo build\n    - uses: actions/upload-artifact@v3\n      with:\n        name: site\n        path: dist\n    - run: |\n        a\n        b c\n"
    );
}

#[test]
fn write_asks_for_the_ci_tests_file() {
    let update = CI::standard_workflow().write(true);
    assert_eq!(update.path, vec![".github", "workflows", "ci-tests.yml"]);
    assert_eq!(update.content, standard_document());
    assert!(update.check);
    let update = CI::new().write(false);
    assert_eq!(update.content, "name: ci-tests\non: [push, pull_request]\njobs:\n");
    assert!(!update.check);
}
