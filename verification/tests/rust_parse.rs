use amari_discovery::inspect::rust::parser::{parse_rust_source, CrateAliasMap};
use amari_discovery::inspect::rust::types::RustUsageKind;

fn test_aliases() -> CrateAliasMap {
    CrateAliasMap {
        alias_to_pkg: vec![
            ("amari".to_string(), "amari".to_string()),
            ("amari_core".to_string(), "amari-core".to_string()),
            ("amari_dual".to_string(), "amari-dual".to_string()),
            ("amari_tropical".to_string(), "amari-tropical".to_string()),
        ],
    }
}

#[test]
fn test_parse_simple_use() {
    let source = "use amari::tropical::TropicalNumber;";
    let aliases = test_aliases();
    let result = parse_rust_source(source, "hash", "test.rs", &aliases).unwrap();
    assert_eq!(result.usages.len(), 1);
    assert_eq!(result.usages[0].crate_name, "amari");
    assert_eq!(result.usages[0].alias, "amari");
    assert_eq!(result.usages[0].path_segments, vec!["tropical", "TropicalNumber"]);
    assert_eq!(result.usages[0].kind, RustUsageKind::Use);
}

#[test]
fn test_parse_direct_crate_use() {
    let source = "use amari_core::Multivector;";
    let aliases = test_aliases();
    let result = parse_rust_source(source, "hash", "test.rs", &aliases).unwrap();
    assert_eq!(result.usages.len(), 1);
    assert_eq!(result.usages[0].crate_name, "amari-core");
}

#[test]
fn test_parse_glob_use() {
    let source = "use amari::tropical::*;";
    let aliases = test_aliases();
    let result = parse_rust_source(source, "hash", "test.rs", &aliases).unwrap();
    assert_eq!(result.usages.len(), 1);
}

#[test]
fn test_parse_grouped_use() {
    let source = "use amari::{tropical::TropicalNumber, dual::DualNumber};";
    let aliases = test_aliases();
    let result = parse_rust_source(source, "hash", "test.rs", &aliases).unwrap();
    assert_eq!(result.usages.len(), 2);
}

#[test]
fn test_parse_renamed_use() {
    let source = "use amari::dual::DualNumber as Dual;";
    let aliases = test_aliases();
    let result = parse_rust_source(source, "hash", "test.rs", &aliases).unwrap();
    assert_eq!(result.usages.len(), 1);
}

#[test]
fn test_parse_bare_use_crate() {
    let source = "use amari_tropical;";
    let aliases = test_aliases();
    let result = parse_rust_source(source, "hash", "test.rs", &aliases).unwrap();
    assert_eq!(result.usages.len(), 1);
}

#[test]
fn test_parse_extern_crate() {
    let source = "extern crate amari_core;";
    let aliases = test_aliases();
    let result = parse_rust_source(source, "hash", "test.rs", &aliases).unwrap();
    assert_eq!(result.usages.len(), 1);
    assert_eq!(result.usages[0].kind, RustUsageKind::ExternCrate);
}

#[test]
fn test_parse_no_std_crate_attr() {
    let source = "#![no_std]\n#![forbid(unsafe_code)]\nfn main() {}";
    let aliases = test_aliases();
    let result = parse_rust_source(source, "hash", "test.rs", &aliases).unwrap();
    let names: Vec<&str> = result.crate_attrs.iter().map(|(s, _)| s.as_str()).collect();
    assert!(names.contains(&"no_std"));
    assert!(names.contains(&"forbid(unsafe_code)"));
}

#[test]
fn test_parse_cfg() {
    let source = "#[cfg(feature = \"gpu\")]\nuse amari_core::Multivector;";
    let aliases = test_aliases();
    let result = parse_rust_source(source, "hash", "test.rs", &aliases).unwrap();
    assert!(!result.cfg_evidence.is_empty());
    assert!(result.cfg_evidence[0].cfg_predicate.contains("gpu"));
    assert!(!result.cfg_evidence[0].is_cfg_attr);
}

#[test]
fn test_parse_cfg_attr() {
    let source = "#[cfg_attr(feature = \"nightly\", doc = \"nightly only\")]\nfn foo() {}";
    let aliases = test_aliases();
    let result = parse_rust_source(source, "hash", "test.rs", &aliases).unwrap();
    assert!(!result.cfg_evidence.is_empty());
    assert!(result.cfg_evidence[0].is_cfg_attr);
    assert!(result.cfg_evidence[0].cfg_predicate.contains("nightly"));
}

#[test]
fn test_parse_malformed() {
    let source = "use amari::tropical::TropicalNumber";
    let aliases = test_aliases();
    let result = parse_rust_source(source, "hash", "test.rs", &aliases);
    assert!(result.is_err());
    let err = result.unwrap_err();
    assert!(err.reason.contains("parse error"));
    assert!(err.line.is_some());
}

#[test]
fn test_parse_non_amari_ignored() {
    let source = "use std::collections::HashMap;\nuse serde::Serialize;";
    let aliases = test_aliases();
    let result = parse_rust_source(source, "hash", "test.rs", &aliases).unwrap();
    assert!(result.usages.is_empty());
}

#[test]
fn test_parse_path_expression() {
    let source = "fn main() {\n    let x = amari_tropical::TropicalNumber::new(1.0);\n}";
    let aliases = test_aliases();
    let result = parse_rust_source(source, "hash", "test.rs", &aliases).unwrap();
    let path_exps: Vec<_> = result.usages.iter().filter(|u| u.kind == RustUsageKind::PathExpression).collect();
    assert!(!path_exps.is_empty());
}

#[test]
fn test_parse_type_path() {
    let source = "fn foo(x: amari::tropical::TropicalNumber) {}";
    let aliases = test_aliases();
    let result = parse_rust_source(source, "hash", "test.rs", &aliases).unwrap();
    let type_paths: Vec<_> = result.usages.iter().filter(|u| u.kind == RustUsageKind::PathType).collect();
    assert!(!type_paths.is_empty());
}

#[test]
fn test_parse_trait_bound() {
    let source = "fn foo<T: amari_core::SomeTrait>() {}";
    let aliases = test_aliases();
    let result = parse_rust_source(source, "hash", "test.rs", &aliases).unwrap();
    let trait_bounds: Vec<_> = result.usages.iter().filter(|u| u.kind == RustUsageKind::PathTrait).collect();
    assert!(!trait_bounds.is_empty());
}

#[test]
fn test_parse_macro_path() {
    let source = "fn main() { amari_core::some_macro!(); }";
    let aliases = test_aliases();
    let result = parse_rust_source(source, "hash", "test.rs", &aliases).unwrap();
    let macro_paths: Vec<_> = result.usages.iter().filter(|u| u.kind == RustUsageKind::PathMacro).collect();
    assert!(!macro_paths.is_empty());
}

#[test]
fn test_parse_doc_segments() {
    let source = "/// First doc comment\nfn foo() {}\n/// Second doc\nfn bar() {}";
    let aliases = test_aliases();
    let result = parse_rust_source(source, "hash", "test.rs", &aliases).unwrap();
    assert!(
        result.doc_segments.len() >= 2,
        "should have at least 2 doc segments, got {}",
        result.doc_segments.len()
    );
    let texts: Vec<&str> = result.doc_segments.iter().map(|s| s.text.as_str()).collect();
    assert!(texts.iter().any(|t| t.contains("First doc")));
    assert!(texts.iter().any(|t| t.contains("Second doc")));
}

#[test]
fn test_parse_doc_attribute_segment() {
    let source = "#[doc = \"explicit doc attribute\"]\nfn foo() {}";
    let aliases = test_aliases();
    let result = parse_rust_source(source, "hash", "test.rs", &aliases).unwrap();
    let texts: Vec<&str> = result.doc_segments.iter().map(|s| s.text.as_str()).collect();
    assert!(texts.iter().any(|t| t.contains("explicit doc")));
}

#[test]
fn test_usage_has_1based_column() {
    let source = "use amari_core::Multivector;";
    let aliases = test_aliases();
    let result = parse_rust_source(source, "hash", "test.rs", &aliases).unwrap();
    assert_eq!(result.usages.len(), 1);
    let col = result.usages[0].source.column;
    assert!(col.is_some());
    assert!(col.unwrap() >= 1);
}

#[test]
fn test_cfg_dedup() {
    let source = "#[cfg(feature = \"gpu\")]\n#[cfg(feature = \"gpu\")]\nfn foo() {}";
    let aliases = test_aliases();
    let result = parse_rust_source(source, "hash", "test.rs", &aliases).unwrap();
    let gpu_cfgs: Vec<_> = result.cfg_evidence.iter().filter(|c| c.cfg_predicate.contains("gpu")).collect();
    assert_eq!(gpu_cfgs.len(), 2, "distinct locations should be preserved");
}

#[test]
fn usage_locations_and_exact_values() {
    let source = "use amari_core::{Rotor, Multivector as MV};\nfn f(x: amari_core::Rotor) {}";
    let aliases = test_aliases();
    let result = parse_rust_source(source, "h", "src/a.rs", &aliases).unwrap();
    let seen: Vec<(Vec<String>, RustUsageKind, Option<u32>, Option<u32>)> = result
        .usages
        .iter()
        .map(|u| (u.path_segments.clone(), u.kind, u.source.line, u.source.column))
        .collect();
    assert_eq!(
        seen,
        vec![
            (vec!["Multivector".to_string()], RustUsageKind::Use, Some(1), Some(25)),
            (vec!["Rotor".to_string()], RustUsageKind::Use, Some(1), Some(18)),
            (vec!["Rotor".to_string()], RustUsageKind::PathType, Some(2), Some(9)),
        ]
    );
    let err = parse_rust_source("fn (", "h", "a.rs", &aliases).unwrap_err();
    assert_eq!(err.content_hash, "h");
    assert_eq!(err.line, Some(1));
}
