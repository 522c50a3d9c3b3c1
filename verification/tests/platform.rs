use amari_discovery::inspect::cargo::types::{
    CargoBench, CargoDependencyRecord, CargoInspection, CargoPackage, DependencyKind, ManifestSource, NativeLink,
    SystemDependencyKind, SystemDependencySignal,
};
use amari_discovery::inspect::cargo_config::bench_evidence::derive_benchmarks;
use amari_discovery::inspect::cargo_config::evidence::{derive_native_requirements, derive_wasm_targets};
use amari_discovery::inspect::cargo_config::platform::{
    after_config_read, after_parse, build_config_input, derive_platform, finish_platform, parse_accepted,
};
use amari_discovery::inspect::cargo_config::reader::ConfigRead;
use amari_discovery::inspect::cargo_config::source_evidence::{derive_no_std, derive_target_cfg};
use amari_discovery::inspect::cargo_config::types::{
    BenchmarkStatus, CargoBuildSettings, CargoPlatformWarning, CargoTargetKey, CargoTargetSettings, ConfigSetting,
    ConfigSettingIssue, ConfigSource, ConfiguredLinker, NativeRequirement, RustflagsEvidence, RustflagsScope,
    TargetCfgSource, WasmTargetOrigin,
};
use amari_discovery::inspect::cargo_config::warnings::sort_dedup_warnings;
use amari_discovery::inspect::rust::types::{RustCfgEvidence, RustCrateAttribute, RustFileKind, RustSourceInspection};
use amari_discovery::inspect::snapshot::{InspectionLimit, SnapshotState, SourceLocation};

fn msrc(path: &str, line: usize) -> ManifestSource {
    ManifestSource { path: path.into(), line: Some(line), content_hash: "m".into(), byte_count: 10 }
}

fn csrc(line: Option<usize>) -> ConfigSource {
    ConfigSource { path: ".cargo/config.toml".into(), line, content_hash: "c".into(), byte_count: 20 }
}

fn loc(path: &str, line: Option<u32>) -> SourceLocation {
    SourceLocation { path: path.into(), line, column: None, content_hash: format!("h:{path}") }
}

fn package(name: &str, manifest: &str) -> CargoPackage {
    CargoPackage {
        name: name.into(),
        version: "0.1.0".into(),
        manifest_path: manifest.into(),
        dependencies: Vec::new(),
        benches: Vec::new(),
        native_link: None,
        inherited_metadata: Vec::new(),
        system_dependencies: Vec::new(),
        dependency_records: Vec::new(),
        autobenches: None,
    }
}

fn cargo(root: CargoPackage, members: Vec<CargoPackage>) -> CargoInspection {
    CargoInspection {
        root_package: root,
        workspace_members: members,
        lock: None,
        workspace_meta: None,
        warnings: Vec::new(),
        input_hash: String::new(),
        state: SnapshotState::Complete,
        inspected_file_count: 0,
        total_bytes: 0,
    }
}

fn rust() -> RustSourceInspection {
    RustSourceInspection {
        usages: Vec::new(),
        file_kinds: Vec::new(),
        crate_attributes: Vec::new(),
        cfg_evidence: Vec::new(),
        vocabulary: Vec::new(),
        warnings: Vec::new(),
        input_hash: String::new(),
        state: SnapshotState::Complete,
        inspected_file_count: 0,
        total_bytes: 0,
        input_files: Vec::new(),
    }
}

fn table(triple: &str, line: usize) -> CargoTargetSettings {
    CargoTargetSettings {
        key: CargoTargetKey::Triple { triple: triple.into() },
        rustflags: RustflagsEvidence::empty(),
        rustdocflags: RustflagsEvidence::empty(),
        linker: None,
        runner: None,
        source: csrc(Some(line)),
    }
}

fn read(warnings: Vec<CargoPlatformWarning>) -> ConfigRead {
    ConfigRead {
        accepted: None,
        input_hash: "e".into(),
        file_count: 0,
        total_bytes: 0,
        state: SnapshotState::Complete,
        warnings,
    }
}

#[test]
fn warnings_are_aggregated_sorted_and_deduplicated() {
    let w = vec![
        CargoPlatformWarning::WallClock { max_millis: 1, observed_millis: 2 },
        CargoPlatformWarning::InvalidConfigSetting {
            setting: ConfigSetting::TargetTableLinker,
            issue: ConfigSettingIssue::Empty,
            count: 2,
        },
        CargoPlatformWarning::MissingConfig { path: "b".into() },
        CargoPlatformWarning::InvalidConfigSetting {
            setting: ConfigSetting::BuildTarget,
            issue: ConfigSettingIssue::WrongType,
            count: 1,
        },
        CargoPlatformWarning::InvalidConfigSetting {
            setting: ConfigSetting::TargetTableLinker,
            issue: ConfigSettingIssue::Empty,
            count: 3,
        },
        CargoPlatformWarning::MissingConfig { path: "a".into() },
        CargoPlatformWarning::MissingConfig { path: "a".into() },
    ];
    let mut w = w;
    sort_dedup_warnings(&mut w);
    assert_eq!(
        w,
        vec![
            CargoPlatformWarning::MissingConfig { path: "a".into() },
            CargoPlatformWarning::MissingConfig { path: "b".into() },
            CargoPlatformWarning::InvalidConfigSetting {
                setting: ConfigSetting::BuildTarget,
                issue: ConfigSettingIssue::WrongType,
                count: 1,
            },
            CargoPlatformWarning::InvalidConfigSetting {
                setting: ConfigSetting::TargetTableLinker,
                issue: ConfigSettingIssue::Empty,
                count: 5,
            },
            CargoPlatformWarning::WallClock { max_millis: 1, observed_millis: 2 },
        ]
    );
}

#[test]
fn equal_keys_keep_their_order() {
    let make = || {
        vec![
            CargoPlatformWarning::InvalidTargetIdentifier { path: "p".into(), reason: "z".into() },
            CargoPlatformWarning::InvalidTargetIdentifier { path: "p".into(), reason: "a".into() },
        ]
    };
    let mut v = make();
    sort_dedup_warnings(&mut v);
    assert_eq!(v, make());
}

#[test]
fn wasm_targets_merge_build_and_table_origins() {
    let mut build = CargoBuildSettings::empty();
    build.target = vec!["x86_64-unknown-linux-gnu".into(), "wasm32-unknown-unknown".into()];
    build.source = Some(csrc(None));
    let tables = vec![table("wasm64-unknown-unknown", 9), table("wasm32-unknown-unknown", 5), table("aarch64-apple-darwin", 7)];
    let w = derive_wasm_targets(&build, &tables);
    assert_eq!(w.len(), 2);
    assert_eq!(w[0].target, "wasm32-unknown-unknown");
    assert_eq!(w[0].origins, vec![WasmTargetOrigin::BuildTarget, WasmTargetOrigin::TargetTable]);
    assert_eq!(w[0].sources, vec![csrc(None), csrc(Some(5))]);
    assert_eq!(w[1].target, "wasm64-unknown-unknown");
    assert_eq!(w[1].origins, vec![WasmTargetOrigin::TargetTable]);
    assert_eq!(w[1].sources, vec![csrc(Some(9))]);
}

#[test]
fn native_requirements_sorted_by_kind() {
    let mut root = package("root", "Cargo.toml");
    root.native_link = Some(NativeLink { links_key: "z".into(), manifest_source: msrc("Cargo.toml", 3) });
    root.system_dependencies = vec![SystemDependencySignal {
        alias: "cc".into(),
        package: "cc".into(),
        dependency_kind: DependencyKind::Build,
        system_kind: SystemDependencyKind::Cc,
        target: None,
        manifest_source: msrc("Cargo.toml", 8),
    }];
    let mut linked = table("x86_64-unknown-linux-gnu", 4);
    linked.linker = Some(ConfiguredLinker { basename: "mold".into(), identity: "i".into() });
    let mut build = CargoBuildSettings::empty();
    build.rustflags.has_native_linking = true;
    build.rustflags.native_flag_count = 2;
    build.rustflags.native_identity = "n".into();
    build.source = Some(csrc(None));
    let c = cargo(root, Vec::new());
    let n = derive_native_requirements(&c, &[linked], &build);
    assert_eq!(n.len(), 4);
    assert!(matches!(&n[0], NativeRequirement::CargoLinks { links_key, package, .. } if links_key == "z" && package == "root"));
    assert!(matches!(&n[1], NativeRequirement::SystemDependency { alias, system_kind: SystemDependencyKind::Cc, .. } if alias == "cc"));
    assert!(matches!(&n[2], NativeRequirement::ConfiguredLinker { basename, .. } if basename == "mold"));
    assert!(matches!(&n[3], NativeRequirement::NativeRustflags { scope: RustflagsScope::Build, flag_count: 2, .. }));
}

#[test]
fn benchmarks_join_declarations_and_conventions() {
    let mut root = package("root", "Cargo.toml");
    root.benches = vec![CargoBench {
        name: "decl".into(),
        path: "benches/decl.rs".into(),
        harness: false,
        required_features: vec!["x".into()],
        manifest_source: msrc("Cargo.toml", 12),
    }];
    let mut member = package("m", "crates/m/Cargo.toml");
    member.autobenches = Some(false);
    member.benches = vec![CargoBench {
        name: "gone".into(),
        path: "benches/gone.rs".into(),
        harness: true,
        required_features: Vec::new(),
        manifest_source: msrc("crates/m/Cargo.toml", 2),
    }];
    let mut r = rust();
    for path in ["benches/decl.rs", "benches/conv.rs", "benches/group/main.rs", "benches/helpers/util.rs"] {
        r.file_kinds.push(RustFileKind::Bench { package: "root".into(), path: path.into() });
    }
    r.file_kinds.push(RustFileKind::Bench { package: "m".into(), path: "crates/m/benches/auto.rs".into() });
    r.input_files = vec![loc("benches/conv.rs", None), loc("benches/decl.rs", None)];
    let b = derive_benchmarks(&cargo(root, vec![member]), &r);
    let summary: Vec<(String, String, String)> =
        b.iter().map(|b| (b.package.clone(), b.name.clone(), b.path.clone())).collect();
    assert_eq!(
        summary,
        vec![
            ("m".to_string(), "gone".to_string(), "crates/m/benches/gone.rs".to_string()),
            ("root".to_string(), "conv".to_string(), "benches/conv.rs".to_string()),
            ("root".to_string(), "decl".to_string(), "benches/decl.rs".to_string()),
            ("root".to_string(), "group".to_string(), "benches/group/main.rs".to_string()),
            ("root".to_string(), "util".to_string(), "benches/helpers/util.rs".to_string()),
        ]
    );
    assert_eq!(b[0].status, BenchmarkStatus::DeclaredMissingSource { declared_path: "benches/gone.rs".into() });
    assert_eq!(b[1].status, BenchmarkStatus::ConventionalUndeclared);
    assert_eq!(b[1].source, Some(loc("benches/conv.rs", None)));
    assert!(b[1].harness);
    assert_eq!(b[2].status, BenchmarkStatus::DeclaredWithSource);
    assert_eq!(b[2].required_features, vec!["x".to_string()]);
    assert_eq!(b[2].declaration_source, Some(msrc("Cargo.toml", 12)));
    assert!(!b[2].harness);
    assert_eq!(b[3].source, None);
}

#[test]
fn no_std_packages_from_classified_files() {
    let mut r = rust();
    r.file_kinds = vec![
        RustFileKind::Library { package: "a".into(), path: "src/lib.rs".into() },
        RustFileKind::Library { package: "b".into(), path: "crates/b/src/lib.rs".into() },
    ];
    r.crate_attributes = vec![
        RustCrateAttribute { path: "crates/b/src/lib.rs".into(), attribute: "no_std".into(), source: None },
        RustCrateAttribute { path: "src/lib.rs".into(), attribute: "no_std".into(), source: Some(loc("src/lib.rs", Some(1))) },
        RustCrateAttribute { path: "orphan.rs".into(), attribute: "no_std".into(), source: Some(loc("orphan.rs", Some(1))) },
        RustCrateAttribute { path: "src/lib.rs".into(), attribute: "no_main".into(), source: Some(loc("src/lib.rs", Some(2))) },
    ];
    r.input_files = vec![loc("crates/b/src/lib.rs", Some(9))];
    let c = cargo(package("a", "Cargo.toml"), Vec::new());
    let e = derive_no_std(&c, &r);
    assert!(e.has_no_std);
    let names: Vec<String> = e.packages.iter().map(|p| p.package.clone()).collect();
    assert_eq!(names, vec!["a".to_string(), "b".to_string()]);
    assert_eq!(e.packages[0].sources, vec![loc("src/lib.rs", Some(1))]);
    assert_eq!(e.packages[1].sources, vec![loc("crates/b/src/lib.rs", None)]);
    assert!(!derive_no_std(&c, &rust()).has_no_std);
}

#[test]
fn target_cfg_constraints_merge_cargo_and_rust() {
    let mut root = package("root", "Cargo.toml");
    root.dependency_records = vec![
        CargoDependencyRecord {
            alias: "libc".into(),
            package: "libc".into(),
            kind: DependencyKind::Normal,
            target: Some("cfg(target_os =   \"linux\")".into()),
            source: msrc("Cargo.toml", 20),
        },
        CargoDependencyRecord {
            alias: "winapi".into(),
            package: "winapi".into(),
            kind: DependencyKind::Normal,
            target: Some("x86_64-pc-windows-msvc".into()),
            source: msrc("Cargo.toml", 22),
        },
    ];
    let mut r = rust();
    r.cfg_evidence = vec![
        RustCfgEvidence {
            path: "src/lib.rs".into(),
            cfg_predicate: "target_os = \"linux\"".into(),
            is_cfg_attr: false,
            source: Some(loc("src/lib.rs", Some(4))),
        },
        RustCfgEvidence {
            path: "src/lib.rs".into(),
            cfg_predicate: "feature = \"x\"".into(),
            is_cfg_attr: true,
            source: Some(loc("src/lib.rs", Some(5))),
        },
        RustCfgEvidence { path: "src/lib.rs".into(), cfg_predicate: "unix".into(), is_cfg_attr: false, source: None },
    ];
    let t = derive_target_cfg(&cargo(root, Vec::new()), &r);
    assert_eq!(t.len(), 1);
    assert_eq!(t[0].predicate, "target_os = \"linux\"");
    assert_eq!(t[0].sources.len(), 2);
    assert!(matches!(&t[0].sources[0], TargetCfgSource::CargoDependencySelector { alias, .. } if alias == "libc"));
    assert!(matches!(&t[0].sources[1], TargetCfgSource::RustAttribute { is_cfg_attr: false, .. }));
}

#[test]
fn wall_clock_checks_decide_the_state() {
    let c = cargo(package("root", "Cargo.toml"), Vec::new());
    let r = rust();
    let missing = read(vec![CargoPlatformWarning::MissingConfig { path: ".cargo/config.toml".into() }]);
    assert!(after_config_read(&c, &r, &missing, None).is_none());
    let early = after_config_read(&c, &r, &missing, Some((5, 7))).unwrap();
    let wall = SnapshotState::LimitExceeded { limit: InspectionLimit::WallClock { max_millis: 5, observed_millis: 7 } };
    assert_eq!(early.state, wall);
    assert_eq!(
        early.warnings,
        vec![
            CargoPlatformWarning::MissingConfig { path: ".cargo/config.toml".into() },
            CargoPlatformWarning::WallClock { max_millis: 5, observed_millis: 7 },
        ]
    );
    assert_eq!(early.config_input, build_config_input(&missing));
    let parsed = parse_accepted(&missing);
    assert!(parsed.target_settings.is_empty());
    let parsed = match after_parse(&c, &r, &missing, parsed, None) {
        Err(p) => p,
        Ok(_) => panic!("no wall-clock observation"),
    };
    let derived = derive_platform(&c, &r, &missing, parsed);
    let done = finish_platform(derived, &missing, None);
    assert_eq!(done.state, SnapshotState::Complete);
    assert_eq!(done.warnings, vec![CargoPlatformWarning::MissingConfig { path: ".cargo/config.toml".into() }]);
    assert_eq!(done.config_input.input_hash, "e");
    let late = finish_platform(derive_platform(&c, &r, &missing, parse_accepted(&missing)), &missing, Some((5, 9)));
    assert_eq!(late.warnings.len(), 2);
    assert_eq!(late.state, SnapshotState::LimitExceeded { limit: InspectionLimit::WallClock { max_millis: 5, observed_millis: 9 } });
}

#[test]
fn conventional_bench_names_fall_back_to_file_stems() {
    let root = package("root", "Cargo.toml");
    let mut r = rust();
    for path in ["benches/a/b/c.tar.rs", "benches/x/y/.hidden"] {
        r.file_kinds.push(RustFileKind::Bench { package: "root".into(), path: path.into() });
    }
    let b = derive_benchmarks(&cargo(root, vec![]), &r);
    let mut names: Vec<String> = b.iter().map(|b| b.name.clone()).collect();
    names.sort();
    assert_eq!(names, vec![".hidden".to_string(), "c.tar".to_string()]);
}

#[test]
fn platform_from_read_checks_the_clock_three_times() {
    let c = cargo(package("root", "Cargo.toml"), Vec::new());
    let r = rust();
    let missing = read(vec![CargoPlatformWarning::MissingConfig { path: ".cargo/config.toml".into() }]);
    let calls = std::cell::Cell::new(0u32);
    let timely = amari_discovery::inspect::cargo_config::platform::inspect_platform_from_read(
        &c,
        &r,
        &missing,
        100,
        || {
            calls.set(calls.get() + 1);
            std::time::Duration::from_millis(3)
        },
    )
    .unwrap();
    assert_eq!(calls.get(), 3);
    assert_eq!(timely.state, SnapshotState::Complete);
    assert_eq!(timely.warnings, vec![CargoPlatformWarning::MissingConfig { path: ".cargo/config.toml".into() }]);
    // The third check trips: the wall-clock warning joins the read's.
    let calls = std::cell::Cell::new(0u32);
    let late = amari_discovery::inspect::cargo_config::platform::inspect_platform_from_read(
        &c,
        &r,
        &missing,
        100,
        || {
            calls.set(calls.get() + 1);
            std::time::Duration::from_millis(if calls.get() == 3 { 250 } else { 1 })
        },
    )
    .unwrap();
    assert_eq!(
        late.state,
        SnapshotState::LimitExceeded { limit: InspectionLimit::WallClock { max_millis: 100, observed_millis: 250 } }
    );
    assert_eq!(late.warnings.len(), 2);
}
