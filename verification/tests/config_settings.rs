use amari_discovery::error::DiscoveryError;
use amari_discovery::hashing::empty_input_hash;
use amari_discovery::inspect::cargo::toml_value::TomlValue;
use amari_discovery::inspect::cargo_config::reader::{
    config_after_open, config_precheck, config_read_of, framed_config_hash, parse_config, read_config_file,
    ConfigOpen,
};
use amari_discovery::inspect::cargo_config::settings::{parse_linker, parse_runner, parse_rustflags_setting};
use amari_discovery::inspect::cargo_config::types::{
    CargoPlatformWarning, CargoTargetKey, ConfigSetting, ConfigSettingIssue, ConfigSource,
};
use amari_discovery::inspect::snapshot::{InspectionLimit, InspectionLimits, SnapshotState};
use amari_discovery::inspect::traversal::BoundedOutcome;
use sha2::{Digest, Sha256};

fn limits() -> InspectionLimits {
    InspectionLimits {
        max_inspection_files: 10,
        max_inspection_bytes: 1 << 20,
        max_traversal_depth: 4,
        max_per_file_bytes: 1 << 16,
        max_inspection_wall_millis: 1_000,
    }
}

fn source(bytes: &[u8]) -> ConfigSource {
    ConfigSource {
        path: ".cargo/config.toml".to_string(),
        line: None,
        content_hash: hex::encode(Sha256::digest(bytes)),
        byte_count: bytes.len() as u64,
    }
}

fn string(s: &str) -> TomlValue {
    TomlValue::String(s.to_string())
}

#[test]
fn framed_hash_is_root_independent() {
    let bytes = b"[build]\ntarget = [\"wasm32-unknown-unknown\"]\n";
    let h1 = framed_config_hash(bytes);
    let h2 = framed_config_hash(bytes);
    assert_eq!(h1, h2);
    assert_ne!(h1, empty_input_hash());
}

#[test]
fn runner_array_identity_no_separator_collision() {
    let mut warnings = Vec::new();
    let two = TomlValue::Array(vec![string("a"), string("b")], String::new());
    let two_tokens = parse_runner(Some(&two), ConfigSetting::TargetTableRunner, &mut warnings)
        .expect("two-token runner");
    let one = TomlValue::Array(vec![string("a\u{1f}b")], String::new());
    let one_token_with_sep = parse_runner(Some(&one), ConfigSetting::TargetTableRunner, &mut warnings)
        .expect("one-token runner containing separator");
    assert_ne!(
        two_tokens.identity, one_token_with_sep.identity,
        "separator-join identity collision between distinct runner arrays"
    );
    assert_eq!(two_tokens.token_count, 2);
    assert_eq!(one_token_with_sep.token_count, 1);
}

#[test]
fn framed_config_hash_frames_path_and_content() {
    let bytes = b"[build]\n";
    let path = ".cargo/config.toml";
    let mut framed = Vec::new();
    framed.extend_from_slice(&(path.len() as u32).to_le_bytes());
    framed.extend_from_slice(path.as_bytes());
    framed.extend_from_slice(&(bytes.len() as u64).to_le_bytes());
    framed.extend_from_slice(bytes);
    assert_eq!(framed_config_hash(bytes), hex::encode(Sha256::digest(&framed)));
}

#[test]
fn runner_string_uses_basename_of_first_token() {
    let mut warnings = Vec::new();
    let r = parse_runner(Some(&string("/usr/bin/wasm-runner --flag x")), ConfigSetting::TargetTableRunner, &mut warnings)
        .unwrap();
    assert_eq!(r.executable_basename, "wasm-runner");
    assert_eq!(r.token_count, 3);
    assert!(warnings.is_empty());
    assert!(parse_runner(Some(&string("   ")), ConfigSetting::TargetTableRunner, &mut warnings).is_none());
    assert!(parse_runner(Some(&TomlValue::Integer(3)), ConfigSetting::TargetTableRunner, &mut warnings).is_none());
    assert_eq!(
        warnings,
        vec![
            CargoPlatformWarning::InvalidConfigSetting {
                setting: ConfigSetting::TargetTableRunner,
                issue: ConfigSettingIssue::Empty,
                count: 1
            },
            CargoPlatformWarning::InvalidConfigSetting {
                setting: ConfigSetting::TargetTableRunner,
                issue: ConfigSettingIssue::WrongType,
                count: 1
            },
        ]
    );
}

#[test]
fn linker_and_flags_warnings() {
    let mut warnings = Vec::new();
    let l = parse_linker(Some(&string("C:\\tools\\lld.exe -flavor")), &mut warnings).unwrap();
    assert_eq!(l.basename, "lld.exe");
    assert!(parse_linker(Some(&string("/opt/")), &mut warnings).is_none());
    let flags = TomlValue::Array(vec![string("-lm"), TomlValue::Boolean(true), string("--cfg")], String::new());
    let ev = parse_rustflags_setting(Some(&flags), ConfigSetting::BuildRustflags, &mut warnings);
    assert_eq!(ev.flag_count, 2);
    assert!(ev.has_native_linking);
    assert_eq!(ev.native_flag_count, 1);
    assert_eq!(
        warnings,
        vec![
            CargoPlatformWarning::InvalidConfigSetting {
                setting: ConfigSetting::TargetTableLinker,
                issue: ConfigSettingIssue::Empty,
                count: 1
            },
            CargoPlatformWarning::InvalidConfigSetting {
                setting: ConfigSetting::BuildRustflags,
                issue: ConfigSettingIssue::MixedArray,
                count: 1
            },
        ]
    );
}

#[test]
fn config_parse_reads_build_and_targets() {
    let text = r#"
[build]
target = ["wasm32-unknown-unknown", "x86_64-unknown-linux-gnu", "wasm32-unknown-unknown", "specs/custom.json", "bad", 3]
target-dir = "out"
incremental = false
rustflags = "-C target-feature=+atomics"

[target.wasm32-unknown-unknown]
runner = "wasm-bindgen-test-runner"

[target."'wasm32-unknown-unknown'"]
runner = "other-runner"

[target.'cfg(unix)']
linker = "clang"

[target."not a triple"]
linker = "ld"
"#;
    let bytes = text.as_bytes();
    let parsed = parse_config(bytes, &source(bytes));
    let b = &parsed.build_settings;
    assert_eq!(b.target, vec!["wasm32-unknown-unknown".to_string(), "x86_64-unknown-linux-gnu".to_string()]);
    assert_eq!(b.custom_targets.count, 1);
    assert!(b.target_dir_set);
    assert_eq!(b.incremental, Some(false));
    assert_eq!(b.rustflags.flag_count, 2);
    assert_eq!(b.source.as_ref().unwrap().path, ".cargo/config.toml");
    assert_eq!(parsed.target_settings.len(), 2);
    assert!(matches!(&parsed.target_settings[0].key,
        CargoTargetKey::Triple { triple } if triple == "wasm32-unknown-unknown"));
    assert!(matches!(&parsed.target_settings[1].key, CargoTargetKey::Cfg { .. }));
    let kept = parsed.target_settings[0].runner.as_ref().unwrap();
    assert_eq!(kept.executable_basename, "other-runner");
    assert!(parsed.warnings.contains(&CargoPlatformWarning::InvalidConfigSetting {
        setting: ConfigSetting::BuildTarget,
        issue: ConfigSettingIssue::MixedArray,
        count: 1
    }));
    assert!(parsed.warnings.contains(&CargoPlatformWarning::InvalidConfigSetting {
        setting: ConfigSetting::BuildTarget,
        issue: ConfigSettingIssue::InvalidValue,
        count: 1
    }));
    assert!(parsed.warnings.contains(&CargoPlatformWarning::InvalidTargetIdentifier {
        path: ".cargo/config.toml".to_string(),
        reason: "invalid Cargo target triple or cfg selector".to_string()
    }));
    assert_eq!(
        parsed.warnings.last(),
        Some(&CargoPlatformWarning::DuplicateTargetSetting {
            key_display: "wasm32-unknown-unknown".to_string(),
            count: 1
        })
    );
}

#[test]
fn config_parse_rejects_bad_bytes() {
    let bad = [0xffu8, 0x00];
    let parsed = parse_config(&bad, &source(&bad));
    assert!(parsed.build_settings.source.is_none());
    assert!(matches!(&parsed.warnings[..], [CargoPlatformWarning::InvalidUtf8Config { byte_count: 2, .. }]));
    let text = b"[build\n";
    let parsed = parse_config(text, &source(text));
    assert!(matches!(&parsed.warnings[..],
        [CargoPlatformWarning::MalformedConfig { reason, line: Some(1), .. }] if reason == "unexpected TOML syntax"));
}

#[test]
fn config_read_decisions() {
    let l = limits();
    let early = config_precheck(1_000, &l).unwrap();
    assert_eq!(
        early.state,
        SnapshotState::LimitExceeded { limit: InspectionLimit::WallClock { max_millis: 1_000, observed_millis: 1_000 } }
    );
    let shallow = config_precheck(0, &InspectionLimits { max_traversal_depth: 1, ..limits() }).unwrap();
    assert_eq!(shallow.state, SnapshotState::LimitExceeded { limit: InspectionLimit::TraversalDepth { max: 1 } });
    assert!(config_precheck(0, &l).is_none());

    let missing = config_after_open(ConfigOpen::Missing, &l).unwrap().unwrap();
    assert_eq!(missing.warnings, vec![CargoPlatformWarning::MissingConfig { path: ".cargo/config.toml".into() }]);
    assert_eq!(missing.input_hash, empty_input_hash());
    assert!(matches!(config_after_open(ConfigOpen::Failed, &l),
        Err(DiscoveryError::InspectionFailure(ref m)) if m == "cannot open project config"));
    let none = config_after_open(ConfigOpen::Opened, &InspectionLimits { max_inspection_files: 0, ..limits() })
        .unwrap()
        .unwrap();
    assert_eq!(none.state, SnapshotState::LimitExceeded { limit: InspectionLimit::FileCount { max: 0, observed: 1 } });
    assert!(config_after_open(ConfigOpen::Opened, &l).unwrap().is_none());

    let ok = config_read_of(BoundedOutcome::Accepted(b"[build]\n".to_vec()), &l);
    assert_eq!(ok.file_count, 1);
    assert_eq!(ok.total_bytes, 8);
    assert_eq!(ok.input_hash, framed_config_hash(b"[build]\n"));
    let tight = InspectionLimits { max_inspection_bytes: 4, ..limits() };
    let over = config_read_of(BoundedOutcome::Accepted(b"[build]\n".to_vec()), &tight);
    assert_eq!(over.state, SnapshotState::LimitExceeded { limit: InspectionLimit::TotalBytes { max: 4, observed: 5 } });
    assert!(over.accepted.is_none());
    let mut input: &[u8] = b"[build]\n";
    let read = read_config_file(&mut input, &l).unwrap();
    assert_eq!(read.accepted.unwrap().bytes, b"[build]\n".to_vec());
}
