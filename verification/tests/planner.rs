use amari_discovery::planner::graph::is_invalidating;

#[test]
fn design_invalid_when_relation_is_not_traversable() {
    assert!(is_invalidating("invalid_when"));
}

use amari_discovery::planner::plan::hash_probe_results;
use amari_discovery::protocol::ProbeReplayHash;
use sha2::{Digest, Sha256};

#[test]
fn probe_hash_is_sha256_of_escaped_json() {
    let v = vec![ProbeReplayHash {
        probe_id: "a\"b\\c\n\u{1}".into(),
        input_hash: "i".into(),
        result_hash: "r".into(),
    }];
    let json = "[{\"probe_id\":\"a\\\"b\\\\c\\n\\u0001\",\"input_hash\":\"i\",\"result_hash\":\"r\"}]";
    let expected: String = Sha256::digest(json.as_bytes()).iter().map(|b| format!("{:02x}", b)).collect();
    assert_eq!(hash_probe_results(&v).unwrap(), expected);
    assert_eq!(serde_json::to_string("a\"b\\c\n\u{1}").unwrap(), "\"a\\\"b\\\\c\\n\\u0001\"");
}

use amari_discovery::error::DiscoveryError;
use amari_discovery::planner::canonical::{is_canonical, step_before, validate_plan_structure};
use amari_discovery::protocol::{
    CandidatePlan, CatalogIdentity, PlanCompatibility, PlanNormalization, PlanStep, PlanTestTarget,
};

fn dep(cap: &str, package: &str) -> PlanStep {
    PlanStep::Dependency { capability_id: cap.into(), package: package.into(), version: "1".into() }
}

fn plan(cap: &str, order: &[&str], steps: Vec<PlanStep>) -> CandidatePlan {
    CandidatePlan {
        capability_id: cap.into(),
        prerequisite_order: order.iter().map(|s| s.to_string()).collect(),
        steps,
        compatibility: PlanCompatibility {
            catalog: CatalogIdentity { version: "v".into(), hash: "h".into() },
            project_hash: "p".into(),
            input_hash: "i".into(),
            probe_results: vec![],
        },
        normalization: PlanNormalization { normalized: false, max_rewrites: 0, trace: vec![] },
        plan_hash: String::new(),
    }
}

#[test]
fn steps_order_by_capability_rank_then_step() {
    let order = vec!["a".to_string(), "b".to_string()];
    assert_eq!(step_before(&dep("b", "x"), &dep("a", "y"), &order).unwrap(), false);
    assert_eq!(step_before(&dep("a", "y"), &dep("b", "x"), &order).unwrap(), true);
    assert_eq!(step_before(&dep("a", "x"), &dep("a", "y"), &order).unwrap(), true);
    let test = PlanStep::Test { capability_id: "a".into(), package: "x".into(), target: PlanTestTarget::AllTargets };
    assert_eq!(step_before(&dep("a", "z"), &test, &order).unwrap(), true);
    match step_before(&dep("c", "x"), &dep("a", "y"), &order) {
        Err(DiscoveryError::InvalidInput(m)) => assert_eq!(m, "unknown plan-step capability `c`"),
        _ => panic!("expected an unknown capability"),
    }
    assert_eq!(is_canonical(&vec![dep("a", "x"), dep("b", "x")], &order).unwrap(), true);
    assert_eq!(is_canonical(&vec![dep("a", "x"), dep("a", "x")], &order).unwrap(), false);
}

#[test]
fn plan_structure_checks() {
    assert!(validate_plan_structure(&plan("b", &["a", "b"], vec![dep("a", "x")]), 64).is_ok());
    match validate_plan_structure(&plan("b", &["a", "b"], vec![dep("a", "x"), dep("b", "y")]), 1) {
        Err(DiscoveryError::LimitExceeded(m)) => assert_eq!(m, "plan steps 2 exceed limit 1"),
        _ => panic!("expected a step limit"),
    }
    match validate_plan_structure(&plan("c", &["a", "b"], vec![]), 64) {
        Err(DiscoveryError::InvalidInput(m)) => assert_eq!(m, "plan prerequisite order must end at the candidate capability"),
        _ => panic!("expected a bad order"),
    }
    match validate_plan_structure(&plan("b", &["b", "b"], vec![]), 64) {
        Err(DiscoveryError::InvalidInput(m)) => assert_eq!(m, "plan prerequisite order contains duplicate capability IDs"),
        _ => panic!("expected duplicates"),
    }
    match validate_plan_structure(&plan("b", &["a", "b"], vec![dep("z", "x")]), 64) {
        Err(DiscoveryError::InvalidInput(m)) => assert_eq!(m, "plan step references a capability outside prerequisite order"),
        _ => panic!("expected an outside step"),
    }
}
