use amari_discovery::error::DiscoveryError;
use amari_discovery::planner::steps::{
    draft_plan, plan_steps, prerequisite_order, CapabilityRefs, CrateVersion,
};
use amari_discovery::protocol::{GoalSpec, PlanStep, PlanTestTarget};

fn strings(v: &[&str]) -> Vec<String> {
    v.iter().map(|s| s.to_string()).collect()
}

fn capability(id: &str, crates: &[&str], features: &[&str], symbols: &[&str], examples: &[&str], probes: &[&str]) -> CapabilityRefs {
    CapabilityRefs {
        id: id.into(),
        crate_refs: strings(crates),
        feature_refs: strings(features),
        symbol_refs: strings(symbols),
        example_refs: strings(examples),
        probe_refs: strings(probes),
    }
}

fn krate(name: &str, version: &str) -> CrateVersion {
    CrateVersion { name: name.into(), version: version.into() }
}

#[test]
fn prerequisite_order_keeps_first_occurrences() {
    let order = prerequisite_order("c", "c", &strings(&["a", "b", "a", "c"])).unwrap();
    assert_eq!(order, strings(&["a", "b", "c"]));
    // The capability itself may occur earlier; its first occurrence is kept.
    let order = prerequisite_order("a", "a", &strings(&["a", "b", "a"])).unwrap();
    assert_eq!(order, strings(&["a", "b"]));
}

#[test]
fn prerequisite_order_rejects_unusable_paths() {
    let message = "ranked candidate requires a nonempty path ending at its capability ID".to_string();
    for (cap, target, path) in [
        ("c", "c", vec![]),
        ("c", "d", strings(&["a", "c"])),
        ("c", "c", strings(&["c", "a"])),
    ] {
        assert_eq!(
            prerequisite_order(cap, target, &path),
            Err(DiscoveryError::InvalidInput(message.clone()))
        );
    }
}

#[test]
fn plan_steps_follow_record_order() {
    let caps = vec![
        capability("x", &["serde"], &["serde:derive"], &["serde::Serialize"], &["serde:json"], &["p1"]),
        capability("y", &[], &[], &["y::f"], &[], &[]),
    ];
    let crates = vec![krate("serde", "1.0.0")];
    let steps = plan_steps(&strings(&["y", "x"]), &caps, &crates).unwrap();
    let expected = vec![
        PlanStep::Symbol { capability_id: "y".into(), path: "y::f".into() },
        PlanStep::Dependency { capability_id: "x".into(), package: "serde".into(), version: "1.0.0".into() },
        PlanStep::Feature { capability_id: "x".into(), package: "serde".into(), feature: "derive".into() },
        PlanStep::Symbol { capability_id: "x".into(), path: "serde::Serialize".into() },
        PlanStep::Example { capability_id: "x".into(), package: "serde".into(), example: "json".into() },
        PlanStep::Probe { capability_id: "x".into(), probe_id: "p1".into() },
        PlanStep::Test { capability_id: "x".into(), package: "serde".into(), target: PlanTestTarget::AllTargets },
    ];
    assert_eq!(steps, expected);
}

#[test]
fn plan_steps_use_the_last_record_of_a_name() {
    let caps = vec![
        capability("x", &["old"], &[], &[], &[], &[]),
        capability("x", &["serde"], &[], &[], &[], &[]),
    ];
    let crates = vec![krate("serde", "1.0.0"), krate("serde", "2.0.0")];
    let steps = plan_steps(&strings(&["x"]), &caps, &crates).unwrap();
    assert_eq!(
        steps,
        vec![
            PlanStep::Dependency { capability_id: "x".into(), package: "serde".into(), version: "2.0.0".into() },
            PlanStep::Test { capability_id: "x".into(), package: "serde".into(), target: PlanTestTarget::AllTargets },
        ]
    );
}

#[test]
fn plan_steps_report_catalog_problems() {
    let crates = vec![krate("serde", "1.0.0")];
    assert_eq!(
        plan_steps(&strings(&["missing"]), &vec![], &crates),
        Err(DiscoveryError::InvalidInput("candidate path references unknown capability `missing`".into()))
    );
    let caps = vec![capability("x", &["serde", "tokio"], &[], &[], &[], &[])];
    assert_eq!(
        plan_steps(&strings(&["x"]), &caps, &crates),
        Err(DiscoveryError::CatalogCorruption("capability `x` references unknown crate `tokio`".into()))
    );
    let caps = vec![capability("x", &["serde"], &["serde"], &[], &[], &[])];
    assert_eq!(
        plan_steps(&strings(&["x"]), &caps, &crates),
        Err(DiscoveryError::CatalogCorruption("malformed feature reference `serde`".into()))
    );
    // A malformed example is found after features and symbols.
    let caps = vec![capability("x", &[], &["a:b"], &["s"], &[":e"], &[])];
    assert_eq!(
        plan_steps(&strings(&["x"]), &caps, &crates),
        Err(DiscoveryError::CatalogCorruption("malformed example reference `:e`".into()))
    );
}

#[test]
fn draft_plan_checks_goal_then_path_then_catalog() {
    let caps = vec![capability("x", &[], &[], &["x::f"], &[], &[])];
    let blank = GoalSpec { statement: "  ".into(), constraints: vec![] };
    assert_eq!(
        draft_plan(&blank, "x", "x", &vec![], &caps, &vec![]),
        Err(DiscoveryError::InvalidInput("planning goal statement must not be empty".into()))
    );
    let goal = GoalSpec { statement: "serialize".into(), constraints: vec![] };
    assert!(matches!(
        draft_plan(&goal, "x", "x", &vec![], &caps, &vec![]),
        Err(DiscoveryError::InvalidInput(_))
    ));
    let (order, steps) = draft_plan(&goal, "x", "x", &strings(&["x", "x"]), &caps, &vec![]).unwrap();
    assert_eq!(order, strings(&["x"]));
    assert_eq!(steps, vec![PlanStep::Symbol { capability_id: "x".into(), path: "x::f".into() }]);
}
