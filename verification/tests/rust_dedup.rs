use amari_discovery::inspect::rust::dedup::{sort_and_dedup_cfg, sort_and_dedup_usages};
use amari_discovery::inspect::rust::types::{RustCfgEvidence, RustUsage, RustUsageKind};
use amari_discovery::inspect::snapshot::SourceLocation;

fn at(line: u32, column: u32, hash: &str) -> SourceLocation {
    SourceLocation { path: "src/lib.rs".into(), line: Some(line), column: Some(column), content_hash: hash.into() }
}

fn usage(segments: &[&str], kind: RustUsageKind, source: SourceLocation) -> RustUsage {
    RustUsage {
        crate_name: "amari-core".into(),
        alias: "amari_core".into(),
        path_segments: segments.iter().map(|s| s.to_string()).collect(),
        kind,
        source,
    }
}

#[test]
fn usages_sorted_by_identity_and_deduplicated_without_hash() {
    let mut v = vec![
        usage(&["Rotor"], RustUsageKind::PathType, at(3, 5, "h1")),
        usage(&["Rotor"], RustUsageKind::Use, at(1, 1, "h1")),
        usage(&["Rotor"], RustUsageKind::PathType, at(3, 5, "h2")),
        usage(&[], RustUsageKind::Use, at(9, 1, "h1")),
        usage(&["Rotor", "new"], RustUsageKind::PathExpression, at(2, 4, "h1")),
    ];
    sort_and_dedup_usages(&mut v);
    assert_eq!(
        v,
        vec![
            usage(&[], RustUsageKind::Use, at(9, 1, "h1")),
            usage(&["Rotor"], RustUsageKind::Use, at(1, 1, "h1")),
            usage(&["Rotor"], RustUsageKind::PathType, at(3, 5, "h1")),
            usage(&["Rotor", "new"], RustUsageKind::PathExpression, at(2, 4, "h1")),
        ]
    );
}

fn cfg(predicate: &str, is_cfg_attr: bool, source: Option<SourceLocation>) -> RustCfgEvidence {
    RustCfgEvidence { path: "src/lib.rs".into(), cfg_predicate: predicate.into(), is_cfg_attr, source }
}

#[test]
fn cfg_evidence_sorted_and_deduplicated() {
    let mut v = vec![
        cfg("unix", false, Some(at(4, 1, "h"))),
        cfg("unix", true, None),
        cfg("unix", false, None),
        cfg("feature = \"x\"", false, None),
        cfg("unix", false, Some(at(4, 1, "h"))),
    ];
    sort_and_dedup_cfg(&mut v);
    assert_eq!(
        v,
        vec![
            cfg("feature = \"x\"", false, None),
            cfg("unix", false, None),
            cfg("unix", false, Some(at(4, 1, "h"))),
            cfg("unix", true, None),
        ]
    );
}
