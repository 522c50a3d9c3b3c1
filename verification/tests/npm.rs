use amari_discovery::error::DiscoveryError;
use amari_discovery::inspect::npm::project::{
    npm_preflight, parse_lock, parse_package, resolve_dependencies, NpmProject, NpmRead,
};
use amari_discovery::inspect::npm::types::{NpmDependencyKind, NpmInspectionWarning};
use amari_discovery::inspect::snapshot::{InspectionLimit, InspectionLimits, SnapshotState};
use sha2::{Digest, Sha256};

fn limits() -> InspectionLimits {
    InspectionLimits {
        max_inspection_files: 10,
        max_inspection_bytes: 1 << 20,
        max_traversal_depth: 4,
        max_per_file_bytes: 1 << 16,
        max_inspection_wall_millis: 1_000,
    }
}

const PACKAGE: &str = r#"{
  "name": "web",
  "version": "2.0.0",
  "dependencies": { "@justinelliottcobb/amari-wasm": "^0.24.0" },
  "devDependencies": { "vite": "5" },
  "peerDependencies": { "@justinelliottcobb/amari-wasm": "0.24.0" }
}"#;

fn lock(version: u64, packages_version: &str, deps_version: &str) -> String {
    format!(
        r#"{{"lockfileVersion": {version},
            "packages": {{"node_modules/@justinelliottcobb/amari-wasm": {{"version": "{packages_version}"}}}},
            "dependencies": {{"@justinelliottcobb/amari-wasm": {{"version": "{deps_version}"}}}}}}"#
    )
}

#[test]
fn package_declarations_in_section_order() {
    let p = parse_package(PACKAGE.as_bytes(), "0.24.0").unwrap();
    assert_eq!(p.name.as_deref(), Some("web"));
    assert_eq!(p.version.as_deref(), Some("2.0.0"));
    let kinds: Vec<NpmDependencyKind> = p.dependencies.iter().map(|d| d.kind).collect();
    assert_eq!(kinds, vec![NpmDependencyKind::Production, NpmDependencyKind::Peer]);
    let d = &p.dependencies[0];
    assert_eq!(d.declared_version, "^0.24.0");
    assert_eq!(d.compatibility.status, "unknown_version");
    assert_eq!(
        d.compatibility.reasons,
        vec!["declared requirement ^0.24.0 has no supported exact lock resolution for catalog 0.24.0".to_string()]
    );
    assert_eq!(p.source.path, "package.json");
    assert_eq!(p.source.content_hash, hex::encode(Sha256::digest(PACKAGE.as_bytes())));
    assert_eq!(p.source.byte_count, PACKAGE.len() as u64);
}

#[test]
fn package_errors_name_the_reason() {
    match parse_package(b"[1, 2]", "0.24.0") {
        Err(DiscoveryError::InspectionFailure(m)) => assert_eq!(m, "package.json root is not an object"),
        _ => panic!("expected an error"),
    }
    match parse_package(b"{\"a\": ", "0.24.0") {
        Err(DiscoveryError::InspectionFailure(m)) => {
            assert!(m.starts_with("unexpected end of JSON input in package.json at line 1 column "), "{m}")
        }
        _ => panic!("expected an error"),
    }
    match parse_package(b"{x}", "0.24.0") {
        Err(DiscoveryError::InspectionFailure(m)) => assert!(m.starts_with("invalid JSON syntax in package.json at line 1"), "{m}"),
        _ => panic!("expected an error"),
    }
}

#[test]
fn lock_versions_are_distinct_and_sorted() {
    let l = parse_lock(lock(3, "0.24.1", "0.24.0").as_bytes()).unwrap();
    assert_eq!(l.lockfile_version, 3);
    let versions: Vec<&str> = l.packages.iter().map(|p| p.version.as_str()).collect();
    assert_eq!(versions, vec!["0.24.0", "0.24.1"]);
    let same = parse_lock(lock(2, "0.24.0", "0.24.0").as_bytes()).unwrap();
    assert_eq!(same.packages.len(), 1);
    assert_eq!(same.source.path, "package-lock.json");
}

#[test]
fn lock_warnings_cover_each_rejection() {
    assert_eq!(
        parse_lock(lock(1, "0.24.0", "0.24.0").as_bytes()).unwrap_err(),
        NpmInspectionWarning::UnsupportedLockfileVersion { version: 1 }
    );
    assert_eq!(
        parse_lock(b"{}").unwrap_err(),
        NpmInspectionWarning::UnsupportedLockfileVersion { version: 0 }
    );
    assert!(matches!(parse_lock(&[0xff]).unwrap_err(),
        NpmInspectionWarning::InvalidUtf8Lock { ref path, .. } if path == "package-lock.json"));
    match parse_lock(b"{").unwrap_err() {
        NpmInspectionWarning::MalformedLock { reason, line, column, .. } => {
            assert_eq!(reason, "unexpected end of JSON input");
            assert_eq!(line, Some(1));
            assert_eq!(column, Some(1));
        }
        other => panic!("unexpected warning {other:?}"),
    }
}

#[test]
fn resolution_matches_catalog_or_reports_ambiguity() {
    let mut p = parse_package(PACKAGE.as_bytes(), "0.24.0").unwrap();
    let mut warnings = Vec::new();
    let one = parse_lock(lock(3, "0.24.0", "0.24.0").as_bytes()).unwrap();
    resolve_dependencies(&mut p, &one, "0.24.0", &mut warnings);
    assert!(warnings.is_empty());
    for d in &p.dependencies {
        assert_eq!(d.resolved_version.as_deref(), Some("0.24.0"));
        assert_eq!(d.compatibility.status, "applicable");
        assert_eq!(
            d.compatibility.reasons,
            vec!["resolved npm version 0.24.0 matches the embedded catalog".to_string()]
        );
    }
    let mut q = parse_package(PACKAGE.as_bytes(), "0.25.0").unwrap();
    resolve_dependencies(&mut q, &one, "0.25.0", &mut warnings);
    assert_eq!(q.dependencies[0].compatibility.status, "unknown_version");
    assert_eq!(
        q.dependencies[0].compatibility.reasons,
        vec!["resolved npm version 0.24.0 does not match catalog 0.25.0".to_string()]
    );
    let two = parse_lock(lock(3, "0.24.1", "0.24.0").as_bytes()).unwrap();
    let mut r = parse_package(PACKAGE.as_bytes(), "0.24.0").unwrap();
    resolve_dependencies(&mut r, &two, "0.24.0", &mut warnings);
    assert_eq!(
        warnings,
        vec![NpmInspectionWarning::AmbiguousLockResolution {
            package_name: "@justinelliottcobb/amari-wasm".to_string(),
            version_count: 2
        }]
    );
    assert!(r.dependencies.iter().all(|d| d.resolved_version.is_none()));
}

#[test]
fn preflight_rejects_limits_without_room() {
    let l = limits();
    assert!(npm_preflight(&l, 0).is_ok());
    let cases = [
        (InspectionLimits { max_traversal_depth: 0, ..limits() }, 0, "package.json exceeds traversal depth limit"),
        (InspectionLimits { max_inspection_files: 0, ..limits() }, 0, "package.json exceeds file-count limit"),
        (limits(), 1_000, "package.json exceeds wall-clock limit"),
    ];
    for (limits, elapsed, message) in cases {
        match npm_preflight(&limits, elapsed) {
            Err(DiscoveryError::LimitExceeded(m)) => assert_eq!(m, message),
            _ => panic!("expected {message}"),
        }
    }
}

#[test]
fn package_read_failures_are_errors() {
    let expect = |read: NpmRead, message: &str| match NpmProject::from_package(read, "0.24.0") {
        Err(DiscoveryError::InspectionFailure(m)) | Err(DiscoveryError::LimitExceeded(m)) => assert_eq!(m, message),
        _ => panic!("expected {message}"),
    };
    expect(NpmRead::Missing, "package.json not found");
    expect(NpmRead::Symlink, "package.json is a symlink and cannot be inspected");
    expect(NpmRead::Unsupported, "package.json is not a regular file");
    expect(NpmRead::OpenFailed, "cannot open package.json");
    expect(NpmRead::PerFileExceeded, "package.json exceeds per-file byte limit");
    expect(NpmRead::AggregateExceeded, "package.json exceeds aggregate byte limit");
    expect(NpmRead::ReadFailed, "cannot read package.json");
}

#[test]
fn npm_inspection_with_supported_lock() {
    let l = limits();
    let mut project =
        NpmProject::from_package(NpmRead::Accepted(PACKAGE.as_bytes().to_vec()), "0.24.0").unwrap();
    assert!(!project.wall_clock_gate(0, &l));
    assert!(!project.file_gate(&l));
    let lock_bytes = lock(3, "0.24.0", "0.24.0");
    assert!(project.accept_lock(NpmRead::Accepted(lock_bytes.clone().into_bytes()), &l));
    assert!(!project.wall_clock_gate(5, &l));
    let inspection = project.finish();
    assert_eq!(inspection.state, SnapshotState::Complete);
    assert_eq!(inspection.inspected_file_count, 2);
    assert_eq!(inspection.total_bytes, (PACKAGE.len() + lock_bytes.len()) as u64);
    assert!(inspection.warnings.is_empty());
    assert_eq!(inspection.lock.unwrap().packages.len(), 1);
    assert!(inspection.package.dependencies.iter().all(|d| d.compatibility.status == "applicable"));
}

#[test]
fn npm_lock_outcomes_become_warnings() {
    let l = limits();
    let base = || NpmProject::from_package(NpmRead::Accepted(PACKAGE.as_bytes().to_vec()), "0.24.0").unwrap();
    let mut missing = base();
    assert!(!missing.accept_lock(NpmRead::Missing, &l));
    assert_eq!(missing.warnings, vec![NpmInspectionWarning::MissingLock { path: "package-lock.json".into() }]);
    assert_eq!(missing.state, SnapshotState::Complete);

    let mut oversized = base();
    oversized.accept_lock(NpmRead::PerFileExceeded, &l);
    let limit = InspectionLimit::PerFileBytes { max: l.max_per_file_bytes, observed: l.max_per_file_bytes + 1 };
    assert_eq!(oversized.warnings, vec![NpmInspectionWarning::LimitExceeded { limit }]);
    assert_eq!(oversized.state, SnapshotState::LimitExceeded { limit });

    let mut one_file = base();
    assert!(one_file.file_gate(&InspectionLimits { max_inspection_files: 1, ..limits() }));
    assert_eq!(
        one_file.state,
        SnapshotState::LimitExceeded { limit: InspectionLimit::FileCount { max: 1, observed: 2 } }
    );

    let mut late = base();
    assert!(late.accept_lock(NpmRead::Accepted(lock(1, "0", "0").into_bytes()), &l));
    assert_eq!(late.warnings, vec![NpmInspectionWarning::UnsupportedLockfileVersion { version: 1 }]);
    assert!(late.wall_clock_gate(1_000, &l));
    assert_eq!(
        late.state,
        SnapshotState::LimitExceeded {
            limit: InspectionLimit::WallClock { max_millis: 1_000, observed_millis: 1_000 }
        }
    );
}
