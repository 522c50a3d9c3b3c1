use amari_discovery::error::DiscoveryError;
use amari_discovery::inspect::cargo::manifest::parse_manifest;
use amari_discovery::inspect::cargo::project::{
    check_wall_clock, classify_read, read_limited, CargoProject, ReadOutcome,
};
use amari_discovery::inspect::cargo::provenance::ProvenanceAccumulator;
use amari_discovery::inspect::cargo::types::CargoInspectionWarning;
use amari_discovery::inspect::cargo::lock::optional_number_after_marker;
use amari_discovery::inspect::snapshot::{InspectionLimit, InspectionLimits, SnapshotState};
use amari_discovery::inspect::traversal::BoundedOutcome;
use sha2::{Digest, Sha256};

fn limits() -> InspectionLimits {
    InspectionLimits {
        max_inspection_files: 100,
        max_inspection_bytes: 1 << 20,
        max_traversal_depth: 8,
        max_per_file_bytes: 1 << 16,
        max_inspection_wall_millis: 10_000,
    }
}

fn inspection_failure(r: Result<CargoProject, DiscoveryError>) -> String {
    match r {
        Err(DiscoveryError::InspectionFailure(m)) => m,
        Err(e) => panic!("unexpected error: {}", e.message()),
        Ok(_) => panic!("unexpected success"),
    }
}

const ROOT: &str = r#"[package]
name = "app"
version = "1.2.3"

[dependencies]
amari-core = "0.24.0"
serde = "1"

[workspace]
members = ["crates/b", "crates/a", "crates/a/", "../escape", "crates/*"]
"#;

const LOCK: &str = r#"version = 3

[[package]]
name = "amari-core"
version = "0.24.0"

[[package]]
name = "serde"
version = "1.0.0"
"#;

#[test]
fn wall_clock_check_reports_budget_and_elapsed() {
    let l = limits();
    assert!(check_wall_clock(9_999, &l).is_ok());
    match check_wall_clock(10_000, &l) {
        Err(DiscoveryError::LimitExceeded(m)) => {
            assert_eq!(m, "wall-clock limit 10000ms exceeded after 10000ms")
        }
        _ => panic!("expected a wall-clock error"),
    }
}

#[test]
fn classify_read_respects_aggregate_allowance() {
    let l = InspectionLimits { max_inspection_bytes: 10, ..limits() };
    assert!(matches!(
        classify_read(BoundedOutcome::Accepted(vec![1, 2, 3]), 7, &l),
        ReadOutcome::Accepted(ref b) if b == &vec![1, 2, 3]
    ));
    assert!(matches!(
        classify_read(BoundedOutcome::Accepted(vec![1, 2, 3, 4]), 7, &l),
        ReadOutcome::AggregateExceeded
    ));
    assert!(matches!(
        classify_read(BoundedOutcome::PerFileExceeded, 0, &l),
        ReadOutcome::PerFileExceeded
    ));
}

#[test]
fn read_limited_reads_small_input() {
    let l = limits();
    let mut input: &[u8] = b"[package]\n";
    match read_limited(&mut input, &l, 0) {
        ReadOutcome::Accepted(b) => assert_eq!(b, b"[package]\n".to_vec()),
        _ => panic!("expected accepted bytes"),
    }
    let big = vec![b'x'; 20];
    let tight = InspectionLimits { max_per_file_bytes: 10, ..limits() };
    assert!(matches!(read_limited(&mut big.as_slice(), &tight, 0), ReadOutcome::PerFileExceeded));
}

#[test]
fn root_read_failures_are_errors() {
    assert_eq!(
        inspection_failure(CargoProject::from_root(ReadOutcome::Symlink, "0.24.0")),
        "root Cargo.toml is a symlink and cannot be inspected"
    );
    assert_eq!(
        inspection_failure(CargoProject::from_root(ReadOutcome::NotFound, "0.24.0")),
        "root Cargo.toml not found"
    );
    assert_eq!(
        inspection_failure(CargoProject::from_root(ReadOutcome::IoErr("denied".into()), "0.24.0")),
        "cannot read root Cargo.toml: denied"
    );
    assert_eq!(
        inspection_failure(CargoProject::from_root(ReadOutcome::Accepted(vec![0xff, 0xfe]), "0.24.0")),
        "root Cargo.toml is not valid UTF-8"
    );
    assert_eq!(
        inspection_failure(CargoProject::from_root(
            ReadOutcome::Accepted(b"[workspace]\nmembers = []\n".to_vec()),
            "0.24.0"
        )),
        "missing [package] section in Cargo.toml"
    );
    match CargoProject::from_root(ReadOutcome::PerFileExceeded, "0.24.0") {
        Err(DiscoveryError::LimitExceeded(m)) => assert_eq!(m, "root Cargo.toml exceeds byte limits"),
        _ => panic!("expected a limit error"),
    }
}

#[test]
fn malformed_root_manifest_names_line_and_column() {
    let m = inspection_failure(CargoProject::from_root(
        ReadOutcome::Accepted(b"[package\nname = 1\n".to_vec()),
        "0.24.0",
    ));
    assert!(m.contains(" in root Cargo.toml at line Some(1) col Some("), "{m}");
}

#[test]
fn workspace_inspection_resolves_members_and_lock() {
    let l = limits();
    let mut project =
        CargoProject::from_root(ReadOutcome::Accepted(ROOT.as_bytes().to_vec()), "0.24.0").unwrap();
    assert_eq!(project.root_package.name, "app");
    assert_eq!(project.root_package.version, "1.2.3");
    assert_eq!(project.root_package.dependencies.len(), 1);
    assert_eq!(project.aggregate_bytes, ROOT.len() as u64);

    project.accept_lock(ReadOutcome::Accepted(LOCK.as_bytes().to_vec()), &l);
    let dep = &project.root_package.dependencies[0];
    assert_eq!(dep.package_name, "amari-core");
    assert_eq!(dep.resolved_version.as_deref(), Some("0.24.0"));
    assert_eq!(dep.compatibility.status, "applicable");
    assert!(dep.lock_source.is_some());

    let dirs = project.member_dirs();
    assert_eq!(dirs, vec!["crates/a".to_string(), "crates/b".to_string()]);
    let illegal: Vec<String> = project
        .warnings
        .iter()
        .filter_map(|w| match w {
            CargoInspectionWarning::IllegalMemberPath { member } => Some(member.clone()),
            _ => None,
        })
        .collect();
    assert_eq!(illegal, vec!["<parent-or-current>".to_string(), "<glob>".to_string()]);

    assert!(!project.member_clock_gate(1, &l));
    assert!(!project.member_budget_gate(&l));
    let member_b = "[package]\nname = \"b\"\nversion = \"0.1.0\"\n[dependencies]\namari-core = { workspace = true }\n";
    assert!(!project.accept_member("crates/b", ReadOutcome::Accepted(member_b.as_bytes().to_vec()), &l));
    let member_a = "[package]\nname = \"a\"\nversion = \"0.2.0\"\n";
    assert!(!project.accept_member("crates/a", ReadOutcome::Accepted(member_a.as_bytes().to_vec()), &l));
    project.member_symlinked("crates/c");
    project.member_escaping("crates/d");

    let inspection = project.finish();
    let names: Vec<&str> = inspection.workspace_members.iter().map(|p| p.name.as_str()).collect();
    assert_eq!(names, vec!["a", "b"]);
    assert_eq!(inspection.workspace_members[0].manifest_path, "crates/a/Cargo.toml");
    assert_eq!(inspection.inspected_file_count, 4);
    assert_eq!(
        inspection.total_bytes,
        (ROOT.len() + LOCK.len() + member_a.len() + member_b.len()) as u64
    );
    assert_eq!(inspection.state, SnapshotState::Complete);
    let meta = inspection.workspace_meta.as_ref().unwrap();
    assert_eq!(meta.members, vec!["crates/a".to_string(), "crates/b".to_string()]);
    let lock = inspection.lock.as_ref().unwrap();
    assert_eq!(lock.packages.len(), 2);
    assert_eq!(lock.path, "Cargo.lock");
    assert!(inspection.warnings.iter().any(|w| matches!(w,
        CargoInspectionWarning::SymlinkedManifest { path } if path == "crates/c/Cargo.toml")));
    assert!(inspection.warnings.iter().any(|w| matches!(w,
        CargoInspectionWarning::EscapingManifest { path } if path == "crates/d/Cargo.toml")));
    assert_eq!(inspection.input_hash.len(), 64);
}

#[test]
fn input_hash_does_not_depend_on_acceptance_order() {
    let mut a = ProvenanceAccumulator::new();
    a.accept("Cargo.toml", b"x");
    a.accept("Cargo.lock", b"y");
    let mut b = ProvenanceAccumulator::new();
    b.accept("Cargo.lock", b"y");
    b.accept("Cargo.toml", b"x");
    assert_eq!(a.compute_hash(), b.compute_hash());
    let mut framed = Vec::new();
    for (path, bytes) in [("Cargo.lock", b"y"), ("Cargo.toml", b"x")] {
        framed.extend_from_slice(&(path.len() as u32).to_le_bytes());
        framed.extend_from_slice(path.as_bytes());
        framed.extend_from_slice(&(bytes.len() as u64).to_le_bytes());
        framed.extend_from_slice(bytes);
    }
    assert_eq!(a.compute_hash(), hex::encode(Sha256::digest(&framed)));
}

#[test]
fn missing_lock_leaves_dependencies_unresolved() {
    let l = limits();
    let mut project =
        CargoProject::from_root(ReadOutcome::Accepted(ROOT.as_bytes().to_vec()), "0.24.0").unwrap();
    project.accept_lock(ReadOutcome::NotFound, &l);
    assert!(matches!(project.warnings.last(),
        Some(CargoInspectionWarning::MissingLock { path }) if path == "Cargo.lock"));
    assert!(project.root_package.dependencies[0].resolved_version.is_none());
    let inspection = project.finish();
    assert!(inspection.lock.is_none());
    assert_eq!(inspection.inspected_file_count, 1);
}

#[test]
fn lock_over_limits_is_a_total_bytes_warning() {
    let l = limits();
    let mut project =
        CargoProject::from_root(ReadOutcome::Accepted(ROOT.as_bytes().to_vec()), "0.24.0").unwrap();
    project.accept_lock(ReadOutcome::AggregateExceeded, &l);
    assert!(matches!(project.warnings.last(),
        Some(CargoInspectionWarning::LimitExceeded { limit: InspectionLimit::TotalBytes { max, observed } })
            if *max == l.max_inspection_bytes && *observed == ROOT.len() as u64));
}

#[test]
fn malformed_member_becomes_a_warning_with_position() {
    let l = limits();
    let mut project =
        CargoProject::from_root(ReadOutcome::Accepted(ROOT.as_bytes().to_vec()), "0.24.0").unwrap();
    project.accept_lock(ReadOutcome::NotFound, &l);
    assert!(!project.accept_member("crates/a", ReadOutcome::Accepted(b"[package\n".to_vec()), &l));
    match project.warnings.last() {
        Some(CargoInspectionWarning::MalformedManifest { path, reason, line, column }) => {
            assert_eq!(path, "crates/a/Cargo.toml");
            assert_eq!(reason, "unexpected TOML syntax");
            assert_eq!(*line, Some(1));
            assert!(column.is_some());
        }
        _ => panic!("expected a malformed-manifest warning"),
    }
    assert!(!project.accept_member("crates/b", ReadOutcome::Accepted(b"[lib]\n".to_vec()), &l));
    assert!(matches!(project.warnings.last(),
        Some(CargoInspectionWarning::MalformedManifest { reason, .. }) if reason == "missing [package] section in crates/b/Cargo.toml"));
    assert!(project.members.is_empty());
}

#[test]
fn nested_workspace_member_is_skipped() {
    let l = limits();
    let mut project =
        CargoProject::from_root(ReadOutcome::Accepted(ROOT.as_bytes().to_vec()), "0.24.0").unwrap();
    let nested = "[package]\nname = \"n\"\nversion = \"0.1.0\"\n[workspace]\n";
    assert!(!project.accept_member("crates/n", ReadOutcome::Accepted(nested.as_bytes().to_vec()), &l));
    assert!(matches!(project.warnings.last(),
        Some(CargoInspectionWarning::NestedWorkspaceRoot { path }) if path == "crates/n/Cargo.toml"));
    assert!(project.members.is_empty());
}

#[test]
fn member_limits_stop_inspection() {
    let l = limits();
    let mut project =
        CargoProject::from_root(ReadOutcome::Accepted(ROOT.as_bytes().to_vec()), "0.24.0").unwrap();
    assert!(project.member_clock_gate(10_000, &l));
    assert_eq!(
        project.member_state,
        Some(SnapshotState::LimitExceeded {
            limit: InspectionLimit::WallClock { max_millis: 10_000, observed_millis: 10_000 }
        })
    );
    let one_file = InspectionLimits { max_inspection_files: 1, ..limits() };
    assert!(project.member_budget_gate(&one_file));
    assert_eq!(
        project.member_state,
        Some(SnapshotState::LimitExceeded { limit: InspectionLimit::FileCount { max: 1, observed: 1 } })
    );
    assert!(project.accept_member("crates/a", ReadOutcome::AggregateExceeded, &l));
    assert!(!project.accept_member("crates/b", ReadOutcome::PerFileExceeded, &l));
    assert!(matches!(project.warnings.last(),
        Some(CargoInspectionWarning::LimitExceeded { limit: InspectionLimit::TotalBytes { max, observed } })
            if *max == l.max_per_file_bytes && *observed == l.max_per_file_bytes + 1));
    assert!(!project.accept_member("crates/c", ReadOutcome::NotFound, &l));
    assert!(matches!(project.warnings.last(),
        Some(CargoInspectionWarning::MissingManifest { path }) if path == "crates/c/Cargo.toml"));
}

#[test]
fn parse_manifest_reports_utf8_and_syntax_errors() {
    let p = ProvenanceAccumulator::new();
    let mut warnings = Vec::new();
    match parse_manifest(&[0xff], "x/Cargo.toml", false, &Vec::new(), &Vec::new(), &mut warnings, &p) {
        Err(DiscoveryError::InspectionFailure(m)) => assert_eq!(m, "manifest x/Cargo.toml is not valid UTF-8"),
        _ => panic!("expected a UTF-8 error"),
    }
    match parse_manifest(b"a = ", "x/Cargo.toml", false, &Vec::new(), &Vec::new(), &mut warnings, &p) {
        Err(DiscoveryError::InspectionFailure(m)) => {
            assert_eq!(m, "invalid TOML at x/Cargo.toml line Some(1) col Some(5)")
        }
        _ => panic!("expected a syntax error"),
    }
    assert!(warnings.is_empty());
}

#[test]
fn manifest_error_location_is_read_inside_some() {
    let msg = "unexpected TOML syntax at sub/Cargo.toml line Some(2) col Some(5)";
    assert_eq!(optional_number_after_marker(msg, " line "), Some(2));
    assert_eq!(optional_number_after_marker(msg, " col "), Some(5));
    let none = "invalid TOML at Cargo.toml line None col None";
    assert_eq!(optional_number_after_marker(none, " line "), None);
    assert_eq!(optional_number_after_marker(none, " col "), None);
}
