use amari_discovery::hashing::empty_input_hash;
use amari_discovery::inspect::cargo_config::config::{
    classify_rustflag, sanitize_basename, wall_clock_exceeded,
};
use amari_discovery::inspect::cargo_config::derive::{is_platform_cfg, strip_quoted};
use amari_discovery::inspect::cargo_config::target_key::normalize_target_key;
use amari_discovery::inspect::cargo_config::types::{CargoTargetKey, RustflagCategory};
use sha2::{Digest, Sha256};
use std::time::Duration;

#[test]
fn wall_clock_exceeded_helper_is_deterministic() {
    assert_eq!(wall_clock_exceeded(Duration::ZERO, 0), None);
    assert_eq!(wall_clock_exceeded(Duration::ZERO, 100), None);
    assert_eq!(
        wall_clock_exceeded(Duration::from_millis(100), 50),
        Some((50, 100))
    );
    assert_eq!(
        wall_clock_exceeded(Duration::from_millis(50), 50),
        Some((50, 50))
    );
    assert_eq!(wall_clock_exceeded(Duration::from_millis(10), 50), None);
    assert_eq!(wall_clock_exceeded(Duration::from_micros(999), 0), None);
}

#[test]
fn wall_clock_exceeded_micros_round_to_zero() {
    assert_eq!(wall_clock_exceeded(Duration::from_micros(999), 1), None);
}

#[test]
fn empty_input_hash_is_sha256_of_empty() {
    assert_eq!(empty_input_hash(), hex::encode(Sha256::digest(b"")));
}

#[test]
fn classify_rustflag_categories() {
    assert_eq!(
        classify_rustflag("-Lnative=foo"),
        RustflagCategory::LinkSearch
    );
    assert_eq!(classify_rustflag("-lm"), RustflagCategory::LibraryLink);
    assert_eq!(
        classify_rustflag("link-arg=--secret"),
        RustflagCategory::LinkArg
    );
    assert_eq!(classify_rustflag("-C"), RustflagCategory::Codegen);
    assert_eq!(classify_rustflag("--cfg"), RustflagCategory::Cfg);
    assert_eq!(classify_rustflag("-Zunstable"), RustflagCategory::Unstable);
    assert_eq!(
        classify_rustflag("target-feature=+atomics"),
        RustflagCategory::TargetFeature
    );
    assert_eq!(classify_rustflag("web_sys"), RustflagCategory::Unknown);
}

#[test]
fn sanitize_basename_strips_path_and_args() {
    assert_eq!(sanitize_basename("/usr/bin/rust-lld"), "rust-lld");
    assert_eq!(sanitize_basename("valgrind --tool=memcheck"), "valgrind");
    assert_eq!(sanitize_basename("link.exe"), "link.exe");
}

#[test]
fn quoted_target_key_value_is_not_platform() {
    assert!(
        !is_platform_cfg(r#"cfg(feature = "target_arch")"#),
        "quoted target_arch value must not be a platform constraint"
    );
    assert!(
        !is_platform_cfg(r#"feature = "target_os""#),
        "quoted target_os value must not be a platform constraint"
    );
}

#[test]
fn platform_option_names_require_exact_tokens() {
    assert!(
        !is_platform_cfg(r#"cfg(not_target_arch = "secret")"#),
        "a custom cfg key containing target_arch is not a platform option"
    );
    assert!(
        !is_platform_cfg(r#"target_architecture = "custom""#),
        "target_architecture must not match target_arch"
    );
}

#[test]
fn nested_platform_predicates_positive() {
    assert!(
        is_platform_cfg(r#"cfg(all(target_arch = "x86_64", target_os = "linux"))"#),
        "nested all() with target keys is a platform constraint"
    );
    assert!(
        is_platform_cfg(r#"cfg(not(target_arch = "wasm32"))"#),
        "not() target predicate is a platform constraint"
    );
    assert!(
        is_platform_cfg(r#"cfg(any(target_os = "macos", target_os = "linux"))"#),
        "any() target predicate is a platform constraint"
    );
}

#[test]
fn bare_unix_windows_positive() {
    assert!(is_platform_cfg("cfg(unix)"));
    assert!(is_platform_cfg("cfg(windows)"));
}

#[test]
fn escaped_quote_in_value_is_not_platform() {
    assert!(
        !is_platform_cfg(r#"cfg(feature = "a\"target_os\"")"#),
        "escaped-quote target_os value must not be a platform constraint"
    );
    assert!(
        !is_platform_cfg(r#"feature = \"target_arch\""#),
        "escaped leading-quote target_arch must not be a platform constraint"
    );
}

#[test]
fn strip_quoted_handles_escaped_quotes() {
    let stripped = strip_quoted(r#"feature = "a\"target_os""#);
    assert!(
        !stripped.contains("target_os"),
        "escaped-quote value leaked target_os: {stripped}"
    );
}

#[test]
fn normalize_target_key_cfg_and_triple() {
    assert!(matches!(
        normalize_target_key("'cfg(unix)'"),
        Some(CargoTargetKey::Cfg { ref display, .. }) if display == "cfg(unix)"
    ));
    assert!(matches!(
        normalize_target_key("wasm32-unknown-unknown"),
        Some(CargoTargetKey::Triple { triple }) if triple == "wasm32-unknown-unknown"
    ));
    assert!(normalize_target_key("").is_none());
    assert!(normalize_target_key("not a triple").is_none());
}

#[test]
fn cfg_target_key_redacts_values_and_keeps_distinct_identities() {
    let a = normalize_target_key(r#"cfg(target_os = "linux")"#).unwrap();
    let b = normalize_target_key(r#"cfg(target_os = "macos")"#).unwrap();
    match (&a, &b) {
        (
            CargoTargetKey::Cfg { display: da, identity: ia },
            CargoTargetKey::Cfg { display: db, identity: ib },
        ) => {
            assert_eq!(da, r#"cfg(target_os = "<value>")"#);
            assert_eq!(da, db);
            assert_ne!(ia, ib);
        }
        _ => panic!("expected cfg keys"),
    }
}

#[test]
fn cfg_target_key_whitespace_is_normalized() {
    let spaced = normalize_target_key("cfg(all(unix,   target_env = \"gnu\"))").unwrap();
    let tight = normalize_target_key("cfg(all(unix,target_env=\"gnu\"))").unwrap();
    assert_eq!(spaced, tight);
    match spaced {
        CargoTargetKey::Cfg { display, .. } => {
            assert_eq!(display, r#"cfg(all(unix, target_env = "<value>"))"#)
        }
        _ => panic!("expected a cfg key"),
    }
}

#[test]
fn cfg_target_key_rejects_grammar_violations() {
    assert!(normalize_target_key("cfg(not(unix, windows))").is_none());
    assert!(normalize_target_key("cfg(any())").is_none());
    assert!(normalize_target_key("cfg(feature = 1)").is_none());
    assert!(normalize_target_key("cfg(a::b)").is_none());
    assert!(normalize_target_key("cfg(unix; rm)").is_none());
    assert!(normalize_target_key("cfg()").is_none());
}

#[test]
fn sanitized_basename_never_holds_separator_or_space() {
    for raw in ["C:\\tools\\lld.exe --flag", "  /opt/x/y/runner a b", "dir/", "plain"] {
        let b = sanitize_basename(raw);
        assert!(!b.contains('/') && !b.contains('\\') && !b.contains(' '));
    }
    assert_eq!(sanitize_basename("C:\\tools\\lld.exe --flag"), "lld.exe");
    assert_eq!(sanitize_basename("dir/"), "");
}

#[test]
fn quoted_value_never_decides_platform() {
    for v in ["target_os", "unix", "", "windows x", "Target_Arch"] {
        let p = format!("feature = \"{}\"", v);
        assert!(!is_platform_cfg(&p));
        let q = format!("all(unix, feature = \"{}\")", v);
        assert!(is_platform_cfg(&q));
    }
}
