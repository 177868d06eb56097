use xtask_base::step::Step;
use xtask_base::text::{begins_with, same_text};
use xtask_base::toolchain::{install_rust, rust_toolchain, Component, Profile};

#[test]
fn bare_toolchain_passes_only_its_name() {
    assert_eq!(
        Step::from(rust_toolchain("stable")).to_string(),
        "    - uses: ructions/toolchain@v2\n      with:\n        toolchain: stable\n"
    );
}

#[test]
fn full_toolchain_passes_parameters_in_fixed_order() {
    let rust = rust_toolchain("1.73").wasm().rustfmt().default().clippy().minimal();
    assert_eq!(
        Step::from(rust).to_string(),
        "    - uses: ructions/toolchain@v2\n      with:\n        toolchain: 1.73\n        profile: minimal\n        default: true\n        components: rustfmt, clippy\n        targets: wasm32-unknown-unknown\n"
    );
}

#[test]
fn components_are_listed_in_the_order_of_the_requests() {
    assert_eq!(
        Step::from(rust_toolchain("stable").clippy().rustfmt()).to_string(),
        "    - uses: ructions/toolchain@v2\n      with:\n        toolchain: stable\n        components: clippy, rustfmt\n"
    );
}

#[test]
fn component_asked_for_twice_is_listed_once() {
    assert_eq!(
        Step::from(rust_toolchain("stable").clippy().rustfmt().clippy()).to_string(),
        Step::from(rust_toolchain("stable").clippy().rustfmt()).to_string()
    );
}

#[test]
fn targets_are_kept_as_often_as_asked_for() {
    assert_eq!(
        Step::from(rust_toolchain("stable").wasm().wasm()).to_string(),
        "    - uses: ructions/toolchain@v2\n      with:\n        toolchain: stable\n        targets: wasm32-unknown-unknown, wasm32-unknown-unknown\n"
    );
}

#[test]
fn nightly_is_told_by_the_prefix() {
    assert!(rust_toolchain("nightly").is_nightly());
    assert!(rust_toolchain("nightly-2023-10-14").is_nightly());
    assert!(rust_toolchain("nightlyish").is_nightly());
    assert!(!rust_toolchain("stable").is_nightly());
    assert!(!rust_toolchain("1.73").is_nightly());
    assert!(!rust_toolchain("nightl").is_nightly());
    assert!(!rust_toolchain("").is_nightly());
    assert!(!rust_toolchain("Nightly").is_nightly());
    assert!(!rust_toolchain("beta-nightly").is_nightly());
}

#[test]
fn builders_do_not_change_the_channel() {
    assert!(rust_toolchain("nightly").minimal().default().clippy().rustfmt().wasm().is_nightly());
    assert!(!rust_toolchain("stable").minimal().default().clippy().rustfmt().wasm().is_nightly());
}

#[test]
fn install_rust_fetches_installs_and_restores_the_cache() {
    assert_eq!(
        install_rust(rust_toolchain("1.73").minimal().default().clippy()).to_string(),
        "    - uses: actions/checkout@v3\n    - uses: ructions/toolchain@v2\n      with:\n        toolchain: 1.73\n        profile: minimal\n        default: true\n        components: clippy\n    - uses: Swatinem/rust-cache@v2\n"
    );
}

#[test]
fn names_of_profile_and_components() {
    assert_eq!(Profile::Minimal.as_str(), "minimal");
    assert_eq!(Component::Clippy.as_str(), "clippy");
    assert_eq!(Component::Rustfmt.as_str(), "rustfmt");
}

#[test]
fn begins_with_compares_characters() {
    assert!(begins_with("abc", ""));
    assert!(begins_with("abc", "ab"));
    assert!(begins_with("abc", "abc"));
    assert!(!begins_with("abc", "abcd"));
    assert!(!begins_with("abc", "b"));
    assert!(begins_with("número", "núm"));
    assert!(!begins_with("numero", "núm"));
}

#[test]
fn same_text_is_equality() {
    assert!(same_text("linux", "linux"));
    assert!(!same_text("linux", "linu"));
    assert!(same_text("", ""));
}
