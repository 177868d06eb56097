use xtask_base::command::{cmd, script, Cmd};
use xtask_base::platform::Platform;
use xtask_base::step::{
    action, checkout, install, multi_step, rust_cache, upload_artifact, Step,
};
use xtask_base::workflow::{pull_request, push, workflow, Job};

#[test]
fn command_is_program_and_arguments_joined_by_spaces() {
    assert_eq!(Cmd::new("cargo", &["build", "--all-targets"]).to_string(), "cargo build --all-targets");
}

#[test]
fn command_without_arguments_is_the_program() {
    assert_eq!(Cmd::new("ls", &[]).to_string(), "ls");
}

#[test]
fn command_from_words_takes_the_first_as_program() {
    assert_eq!(Cmd::from(&["git", "status", "-s"]).to_string(), "git status -s");
    assert_eq!(Cmd::from(&["make"]).to_string(), "make");
}

#[test]
fn command_arguments_are_not_quoted() {
    assert_eq!(Cmd::new("echo", &["hello world", "$HOME"]).to_string(), "echo hello world $HOME");
}

#[test]
fn command_appends_to_what_is_there() {
    let mut out = String::from("> ");
    Cmd::new("a", &["b"]).fmt(&mut out);
    assert_eq!(out, "> a b");
}

#[test]
fn single_run_is_one_line() {
    assert_eq!(cmd("cargo", &["test"]).to_string(), "    - run: cargo test\n");
}

#[test]
fn single_run_in_a_directory_names_it_first() {
    assert_eq!(
        cmd("npm", &["ci"]).in_directory("web").to_string(),
        "    - working-directory: web\n      run: npm ci\n"
    );
}

#[test]
fn script_is_a_block_with_one_line_per_command() {
    let run = script(&[&["cargo", "build"], &["cargo", "test", "--release"], &["ls"]]);
    assert_eq!(
        run.to_string(),
        "    - run: |\n        cargo build\n        cargo test --release\n        ls\n"
    );
}

#[test]
fn script_in_a_directory_names_it_first() {
    let run = script(&[&["make"], &["make", "install"]]).in_directory("native");
    assert_eq!(
        run.to_string(),
        "    - working-directory: native\n      run: |\n        make\n        make install\n"
    );
}

#[test]
fn script_without_lines_is_an_empty_block() {
    assert_eq!(script(&[]).to_string(), "    - run: |\n");
}

#[test]
fn later_directory_replaces_earlier() {
    assert_eq!(
        cmd("ls", &[]).in_directory("a").in_directory("b").to_string(),
        "    - working-directory: b\n      run: ls\n"
    );
}

#[test]
fn action_without_parameters_is_one_line() {
    assert_eq!(action("actions/checkout@v3").to_string(), "    - uses: actions/checkout@v3\n");
}

#[test]
fn action_with_parameters_lists_them_in_order() {
    let a = action("some/action@v1").with("zeta", "1").with("alpha", "two words");
    assert_eq!(
        a.to_string(),
        "    - uses: some/action@v1\n      with:\n        zeta: 1\n        alpha: two words\n"
    );
}

#[test]
fn add_with_and_with_agree() {
    let mut a = action("x/y@v2");
    a.add_with("k", "v");
    assert_eq!(a.to_string(), action("x/y@v2").with("k", "v").to_string());
}

#[test]
fn fixed_steps_render_as_their_actions() {
    assert_eq!(checkout().to_string(), "    - uses: actions/checkout@v3\n");
    assert_eq!(rust_cache().to_string(), "    - uses: Swatinem/rust-cache@v2\n");
    assert_eq!(
        upload_artifact("report", "target/report.html").to_string(),
        "    - uses: actions/upload-artifact@v3\n      with:\n        name: report\n        path: target/report.html\n"
    );
}

#[test]
fn install_is_a_cargo_install_run() {
    assert_eq!(
        install("cargo-udeps", "0.1.43").to_string(),
        "    - run: cargo install cargo-udeps --locked --version 0.1.43\n"
    );
}

#[test]
fn when_keeps_or_drops_the_step() {
    assert_eq!(xtask_base::step::when(true, checkout()).to_string(), "    - uses: actions/checkout@v3\n");
    assert_eq!(xtask_base::step::when(false, checkout()).to_string(), "");
}

#[test]
fn if_failed_leaves_the_step_as_it_is() {
    assert_eq!(checkout().if_failed().to_string(), checkout().to_string());
}

#[test]
fn group_renders_members_in_order_at_any_depth() {
    let inner = multi_step(vec![Step::from(cmd("b", &[])), xtask_base::step::when(false, checkout()), rust_cache()]);
    let outer = multi_step(vec![Step::from(cmd("a", &[])), inner, Step::from(cmd("c", &["d"]))]);
    assert_eq!(
        outer.to_string(),
        "    - run: a\n    - run: b\n    - uses: Swatinem/rust-cache@v2\n    - run: c d\n"
    );
}

#[test]
fn empty_group_renders_nothing() {
    assert_eq!(multi_step(vec![]).to_string(), "");
}

#[test]
fn step_appends_to_what_is_there() {
    let mut out = String::from("steps:\n");
    Step::from(cmd("a", &[])).fmt(&mut out);
    checkout().fmt(&mut out);
    assert_eq!(out, "steps:\n    - run: a\n    - uses: actions/checkout@v3\n");
}

#[test]
fn job_is_named_after_task_and_platform() {
    let job = Job::new("tests", Platform::MacOSLatest, vec![checkout(), Step::from(cmd("cargo", &["test"]))]);
    assert_eq!(
        job.to_string(),
        "  tests-macos-latest:\n    runs-on: macos-latest\n    steps:\n    - uses: actions/checkout@v3\n    - run: cargo test\n"
    );
}

#[test]
fn job_without_steps_keeps_its_header() {
    assert_eq!(
        Job::new("idle", Platform::WindowsLatest, vec![]).to_string(),
        "  idle-windows-latest:\n    runs-on: windows-latest\n    steps:\n"
    );
}

#[test]
fn workflow_lists_name_events_and_jobs() {
    let w = workflow("build")
        .on(vec![push(), pull_request()])
        .job("a", Platform::UbuntuLatest, vec![Step::from(cmd("x", &["y"]))])
        .job("b", Platform::WindowsLatest, vec![]);
    assert_eq!(
        w.to_string(),
        "name: build\non: [push, pull_request]\njobs:\n  a-ubuntu-latest:\n    runs-on: ubuntu-latest\n    steps:\n    - run: x y\n  b-windows-latest:\n    runs-on: windows-latest\n    steps:\n"
    );
}

#[test]
fn workflow_without_events_or_jobs() {
    assert_eq!(workflow("empty").to_string(), "name: empty\non: []\njobs:\n");
}

#[test]
fn workflow_with_one_event_has_no_separator() {
    assert_eq!(workflow("w").on(vec![push()]).to_string(), "name: w\non: [push]\njobs:\n");
}

#[test]
fn on_adds_to_the_events_that_are_there() {
    assert_eq!(
        workflow("w").on(vec![pull_request()]).on(vec![push()]).to_string(),
        "name: w\non: [pull_request, push]\njobs:\n"
    );
}

#[test]
fn add_job_and_job_agree() {
    let mut a = workflow("w");
    a.add_job("j", Platform::UbuntuLatest, vec![checkout()]);
    let b = workflow("w").job("j", Platform::UbuntuLatest, vec![checkout()]);
    assert_eq!(a.to_string(), b.to_string());
}

#[test]
fn rendering_twice_gives_the_same_text() {
    let w = workflow("w")
        .on(vec![push()])
        .job("j", Platform::UbuntuLatest, vec![checkout(), Step::from(cmd("a", &["b"]))]);
    let first = w.to_string();
    let second = w.to_string();
    assert_eq!(first, second);
    let mut out = String::new();
    w.fmt(&mut out);
    assert_eq!(out, first);
}

#[test]
fn same_task_on_two_platforms_gives_two_identities() {
    let w = workflow("w")
        .job("tests", Platform::UbuntuLatest, vec![])
        .job("tests", Platform::MacOSLatest, vec![]);
    let text = w.to_string();
    assert!(text.contains("  tests-ubuntu-latest:\n    runs-on: ubuntu-latest\n"));
    assert!(text.contains("  tests-macos-latest:\n    runs-on: macos-latest\n"));
}

#[test]
fn write_asks_for_the_file_under_github_workflows() {
    let w = workflow("nightly").on(vec![push()]);
    let update = w.write(true);
    assert_eq!(update.path, vec![".github".to_string(), "workflows".to_string(), "nightly.yml".to_string()]);
    assert_eq!(update.content, w.to_string());
    assert!(update.check);
    assert!(!w.write(false).check);
}
