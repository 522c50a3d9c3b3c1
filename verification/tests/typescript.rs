use amari_discovery::hashing::sha256_hex;
use amari_discovery::inspect::cargo::provenance::ProvenanceAccumulator;
use amari_discovery::inspect::npm::project::{NpmProject, NpmRead};
use amari_discovery::inspect::npm::typescript::declarations::{WasmCapabilityMapping, WasmClass, WasmSurface};
use amari_discovery::inspect::npm::typescript::imports::scan_imports;
use amari_discovery::inspect::npm::typescript::mask::mask;
use amari_discovery::inspect::npm::typescript::project::{
    plan_candidates, should_descend, source_file_decision, CandidateKind, FileDecision, TsCandidate, TsOpen,
    TsRead, TsStep, TypeScriptProject,
};
use amari_discovery::inspect::npm::typescript::scan::{
    classify_file, has_identifier, is_source_name, line_at, scan_runtime, scan_vocabulary,
};
use amari_discovery::inspect::npm::typescript::types::{
    TypeScriptExportKind, TypeScriptFileRole, TypeScriptImport, TypeScriptImportKind, TypeScriptInspectionWarning,
    TypeScriptRuntimeSignal,
};
use amari_discovery::inspect::snapshot::{InspectionLimit, InspectionLimits, SnapshotState, SourceLocation};

const PKG: &str = "@justinelliottcobb/amari-wasm";

fn limits() -> InspectionLimits {
    InspectionLimits {
        max_inspection_files: 10,
        max_inspection_bytes: 1 << 20,
        max_traversal_depth: 6,
        max_per_file_bytes: 1 << 16,
        max_inspection_wall_millis: 1_000,
    }
}

fn base(path: &str) -> SourceLocation {
    SourceLocation { path: path.to_string(), line: None, column: None, content_hash: "h".to_string() }
}

fn at(path: &str, line: u32) -> SourceLocation {
    SourceLocation { path: path.to_string(), line: Some(line), column: None, content_hash: "h".to_string() }
}

fn import(imported: Option<&str>, local: Option<&str>, kind: TypeScriptImportKind, type_only: bool, line: u32) -> TypeScriptImport {
    TypeScriptImport {
        package_name: PKG.to_string(),
        imported_name: imported.map(str::to_string),
        local_name: local.map(str::to_string),
        kind,
        type_only,
        source: at("src/a.ts", line),
    }
}

fn npm_with_amari(with: bool) -> amari_discovery::inspect::npm::types::NpmInspection {
    let package = if with {
        r#"{"dependencies": {"@justinelliottcobb/amari-wasm": "0.24.0"}}"#
    } else {
        r#"{"dependencies": {"left-pad": "1"}}"#
    };
    NpmProject::from_package(NpmRead::Accepted(package.as_bytes().to_vec()), "0.24.0").unwrap().finish()
}

#[test]
fn source_names_exclude_declarations() {
    for name in ["a.ts", "a.tsx", "a.mts", "a.cts", "a.js", "a.jsx", "a.mjs", "a.cjs"] {
        assert!(is_source_name(name), "{name}");
    }
    for name in ["a.d.ts", "a.json", "ts", "a.tsv"] {
        assert!(!is_source_name(name), "{name}");
    }
}

#[test]
fn masking_blanks_comments_and_optionally_strings() {
    assert_eq!(mask("a // c\nb", false), "a     \nb");
    assert_eq!(mask("x = \"ab\"; /* y */z", true), "x =     ;        z");
    assert_eq!(mask("s = 'a\\'b' + `t\nu`;", true), "s =        +   \n  ;");
    assert_eq!(mask("s = 'a\\'b' + `t\nu`;", false), "s = 'a\\'b' + `t\nu`;");
}

#[test]
fn identifiers_are_whole_tokens() {
    let text: Vec<char> = "if (window.x) { windows(); _process }".chars().collect();
    assert!(has_identifier(&text, "window"));
    assert!(has_identifier(&text, "windows"));
    assert!(!has_identifier(&text, "process"));
    assert!(has_identifier(&text, "_process"));
    assert!(!has_identifier(&text, "document"));
}

#[test]
fn lines_count_newlines_before_position() {
    let text: Vec<char> = "a\nb\nc".chars().collect();
    assert_eq!(line_at(&text, 0), 1);
    assert_eq!(line_at(&text, 2), 2);
    assert_eq!(line_at(&text, 4), 3);
    assert_eq!(line_at(&text, 99), 3);
}

#[test]
fn file_roles_follow_path_conventions() {
    assert_eq!(classify_file("src/app.test.ts"), TypeScriptFileRole::Test);
    assert_eq!(classify_file("src/app.spec.js"), TypeScriptFileRole::Test);
    assert_eq!(classify_file("Tests/app.ts"), TypeScriptFileRole::Test);
    assert_eq!(classify_file("__tests__/x.ts"), TypeScriptFileRole::Test);
    assert_eq!(classify_file("examples/demo.ts"), TypeScriptFileRole::Example);
    assert_eq!(classify_file("demo/main.ts"), TypeScriptFileRole::Example);
    assert_eq!(classify_file("vite.config.ts"), TypeScriptFileRole::Config);
    assert_eq!(classify_file("src/main.ts"), TypeScriptFileRole::Source);
    assert_eq!(classify_file("src/testing/main.ts"), TypeScriptFileRole::Source);
}

#[test]
fn runtime_signals_from_names_and_code() {
    let signals: Vec<TypeScriptRuntimeSignal> = scan_runtime("web/vite.config.ts", "window.x = process.env;", &base("a"))
        .into_iter()
        .map(|e| e.signal)
        .collect();
    assert_eq!(
        signals,
        vec![TypeScriptRuntimeSignal::Vite, TypeScriptRuntimeSignal::Browser, TypeScriptRuntimeSignal::Node]
    );
    let masked = scan_runtime("src/a.ts", "// window\nconst s = \"document\"; WebAssembly.instantiate", &base("a"));
    assert_eq!(masked.len(), 1);
    assert_eq!(masked[0].signal, TypeScriptRuntimeSignal::WebAssembly);
    assert_eq!(masked[0].source, base("a"));
    let webpack = scan_runtime("webpack.config.js", "module.exports = {}", &base("a"));
    assert_eq!(webpack.len(), 1);
    assert_eq!(webpack[0].signal, TypeScriptRuntimeSignal::Webpack);
}

#[test]
fn vocabulary_terms_with_first_lines() {
    let found = scan_vocabulary("// Geometric Algebra with a rotor\nlet c = new Clifford();\nrotor again", &base("a"));
    let terms: Vec<(String, Option<u32>)> = found.into_iter().map(|e| (e.term, e.source.line)).collect();
    assert_eq!(
        terms,
        vec![
            ("geometric algebra".to_string(), Some(1)),
            ("rotor".to_string(), Some(1)),
            ("Clifford algebra".to_string(), Some(2)),
        ]
    );
}

#[test]
fn static_imports_of_the_package() {
    let text = "import { Rotor, Multivector as MV } from \"@justinelliottcobb/amari-wasm\";\n\
                import * as amari from '@justinelliottcobb/amari-wasm';\n\
                import init, { Rotor as R2 } from \"@justinelliottcobb/amari-wasm\";\n\
                import type { Foo } from \"@justinelliottcobb/amari-wasm\";\n\
                // import { Hidden } from \"@justinelliottcobb/amari-wasm\";\n\
                import { Other } from \"other\";";
    let found = scan_imports(text, &base("src/a.ts"));
    assert_eq!(
        found,
        vec![
            import(Some("Rotor"), Some("Rotor"), TypeScriptImportKind::Named, false, 1),
            import(Some("Multivector"), Some("MV"), TypeScriptImportKind::Named, false, 1),
            import(None, Some("amari"), TypeScriptImportKind::Namespace, false, 2),
            import(Some("Rotor"), Some("R2"), TypeScriptImportKind::Named, false, 3),
            import(Some("default"), Some("init"), TypeScriptImportKind::Default, false, 3),
            import(Some("Foo"), Some("Foo"), TypeScriptImportKind::Named, true, 4),
        ]
    );
}

#[test]
fn dynamic_require_and_side_effect_imports() {
    let text = "const m = await import( \"@justinelliottcobb/amari-wasm\" );\n\
                const r = require('@justinelliottcobb/amari-wasm');\n\
                import \"@justinelliottcobb/amari-wasm\";";
    let found = scan_imports(text, &base("src/a.ts"));
    assert_eq!(
        found,
        vec![
            import(None, None, TypeScriptImportKind::Dynamic, false, 1),
            import(None, None, TypeScriptImportKind::Require, false, 2),
            import(None, None, TypeScriptImportKind::SideEffect, false, 3),
        ]
    );
}

#[test]
fn walk_decisions() {
    assert_eq!(should_descend(false, 3, Some("a.ts"), 1), (true, false));
    assert_eq!(should_descend(true, 0, None, 0), (true, false));
    assert_eq!(should_descend(true, 1, None, 4), (false, false));
    assert_eq!(should_descend(true, 1, Some("node_modules"), 4), (false, false));
    assert_eq!(should_descend(true, 1, Some(".env.d"), 4), (false, false));
    assert_eq!(should_descend(true, 4, Some("src"), 4), (false, true));
    assert_eq!(should_descend(true, 3, Some("src"), 4), (true, false));
    assert!(matches!(source_file_decision(None, None), FileDecision::NonUtf8));
    assert!(matches!(source_file_decision(Some("a.json"), Some("a.json".into())), FileDecision::Skip));
    assert!(matches!(source_file_decision(Some(".env.ts"), Some(".env.ts".into())), FileDecision::Skip));
    assert!(matches!(source_file_decision(Some("a.ts"), None), FileDecision::NonUtf8));
    match source_file_decision(Some("a.ts"), Some("src/a.ts".into())) {
        FileDecision::Accept(p) => assert_eq!(p, "src/a.ts"),
        _ => panic!("expected a candidate"),
    }
}

#[test]
fn candidates_sorted_with_declaration_when_declared() {
    let declared = npm_with_amari(true);
    let (c, pruned) = plan_candidates(vec!["src/b.ts".into(), "src/a.ts".into(), "src/a.ts".into()], &declared, 6);
    assert!(!pruned);
    let rel: Vec<(String, CandidateKind)> = c.into_iter().map(|c| (c.relative, c.kind)).collect();
    assert_eq!(
        rel,
        vec![
            ("node_modules/@justinelliottcobb/amari-wasm/amari_wasm.d.ts".to_string(), CandidateKind::Declaration),
            ("src/a.ts".to_string(), CandidateKind::Source),
            ("src/b.ts".to_string(), CandidateKind::Source),
        ]
    );
    let (shallow, pruned) = plan_candidates(vec!["a.ts".into()], &declared, 3);
    assert!(pruned);
    assert_eq!(shallow.len(), 1);
    let (none, pruned) = plan_candidates(vec!["a.ts".into()], &npm_with_amari(false), 6);
    assert!(!pruned);
    assert_eq!(none.len(), 1);
}

fn source(rel: &str) -> TsCandidate {
    TsCandidate { relative: rel.to_string(), kind: CandidateKind::Source }
}

#[test]
fn inspection_of_two_sources_is_sorted_and_hashed() {
    let l = limits();
    let mut p = TypeScriptProject::new(0, false, &l);
    let b = b"import { Zed } from \"@justinelliottcobb/amari-wasm\";\nwindow.x = 1;".to_vec();
    let a = b"import { Alpha } from '@justinelliottcobb/amari-wasm';".to_vec();
    for (rel, bytes) in [("src/b.ts", b.clone()), ("src/a.test.ts", a.clone())] {
        let c = source(rel);
        assert!(!p.wall_clock_gate(10, &l));
        assert_eq!(p.after_open(&c, TsOpen::Opened, &l), TsStep::Read);
        assert!(!p.accept_read(&c, TsRead::Accepted(bytes), None, &[], &l));
    }
    let r = p.finish();
    let names: Vec<Option<String>> = r.imports.iter().map(|i| i.imported_name.clone()).collect();
    assert_eq!(names, vec![Some("Alpha".to_string()), Some("Zed".to_string())]);
    assert_eq!(r.imports[0].source.path, "src/a.test.ts");
    assert_eq!(r.imports[0].source.content_hash, sha256_hex(&a));
    let roles: Vec<TypeScriptFileRole> = r.file_contexts.iter().map(|c| c.role).collect();
    assert_eq!(roles, vec![TypeScriptFileRole::Source, TypeScriptFileRole::Test]);
    assert_eq!(r.runtime_signals.len(), 1);
    assert_eq!(r.runtime_signals[0].signal, TypeScriptRuntimeSignal::Browser);
    assert_eq!(r.inspected_file_count, 2);
    assert_eq!(r.total_bytes, (a.len() + b.len()) as u64);
    let paths: Vec<String> = r.input_files.iter().map(|f| f.path.clone()).collect();
    assert_eq!(paths, vec!["src/a.test.ts".to_string(), "src/b.ts".to_string()]);
    let mut expected = ProvenanceAccumulator::new();
    expected.accept("src/b.ts", &b);
    expected.accept("src/a.test.ts", &a);
    assert_eq!(r.input_hash, expected.compute_hash());
    assert_eq!(r.state, SnapshotState::Complete);
    assert!(r.warnings.is_empty());
}

#[test]
fn declaration_surface_exports_and_capabilities() {
    let l = limits();
    let mut p = TypeScriptProject::new(0, false, &l);
    let surface = WasmSurface {
        classes: vec![WasmClass {
            name: "Rotor".into(),
            methods: vec!["apply".into()],
            static_methods: vec!["identity".into()],
            getters: vec![],
        }],
        functions: vec!["init".into()],
        enums: vec![],
        interfaces: vec![],
        type_aliases: vec!["Scalar".into()],
    };
    let maps = vec![
        WasmCapabilityMapping { wasm_path: "Rotor.identity".into(), capability_id: "rotor.identity".into() },
        WasmCapabilityMapping { wasm_path: "Rotor.missing".into(), capability_id: "rotor.missing".into() },
        WasmCapabilityMapping { wasm_path: "Motor.apply".into(), capability_id: "motor.apply".into() },
    ];
    let c = TsCandidate {
        relative: "node_modules/@justinelliottcobb/amari-wasm/amari_wasm.d.ts".into(),
        kind: CandidateKind::Declaration,
    };
    assert_eq!(p.after_open(&c, TsOpen::Opened, &l), TsStep::Read);
    assert!(!p.accept_read(&c, TsRead::Accepted(b"export class Rotor {}".to_vec()), Some(&surface), &maps, &l));
    let r = p.finish();
    let exports: Vec<(String, TypeScriptExportKind)> =
        r.declaration_exports.iter().map(|e| (e.name.clone(), e.kind)).collect();
    assert_eq!(
        exports,
        vec![
            ("Rotor".to_string(), TypeScriptExportKind::Class),
            ("Scalar".to_string(), TypeScriptExportKind::TypeAlias),
            ("init".to_string(), TypeScriptExportKind::Function),
        ]
    );
    assert_eq!(r.capabilities.len(), 1);
    assert_eq!(r.capabilities[0].capability_id, "rotor.identity");
    assert!(r.file_contexts.is_empty());
}

#[test]
fn declaration_without_surface_or_text_is_a_warning() {
    let l = limits();
    let mut p = TypeScriptProject::new(1, false, &l);
    let c = TsCandidate { relative: "decl.d.ts".into(), kind: CandidateKind::Declaration };
    assert_eq!(p.after_open(&c, TsOpen::Missing, &l), TsStep::Skip);
    assert!(!p.accept_read(&c, TsRead::Accepted(b"x".to_vec()), None, &[], &l));
    let s = source("bad.ts");
    assert!(!p.accept_read(&s, TsRead::Accepted(vec![0xff, 0xfe]), None, &[], &l));
    let r = p.finish();
    assert_eq!(
        r.warnings,
        vec![
            TypeScriptInspectionWarning::NonUtf8Path { path_hint: "non-UTF-8 TypeScript candidate".into() },
            TypeScriptInspectionWarning::MissingDeclarations { path: "decl.d.ts".into() },
            TypeScriptInspectionWarning::MalformedDeclarations {
                path: "decl.d.ts".into(),
                reason: "no supported generated exports could be parsed".into(),
                content_hash: sha256_hex(b"x"),
            },
            TypeScriptInspectionWarning::InvalidUtf8Source { path: "bad.ts".into(), content_hash: sha256_hex(&[0xff, 0xfe]) },
        ]
    );
    assert_eq!(r.inspected_file_count, 2);
}

#[test]
fn open_and_read_failures_become_warnings() {
    let l = limits();
    let mut p = TypeScriptProject::new(0, true, &l);
    let c = source("x.ts");
    assert_eq!(p.after_open(&c, TsOpen::Missing, &l), TsStep::Skip);
    assert_eq!(p.after_open(&c, TsOpen::Symlink, &l), TsStep::Skip);
    assert_eq!(p.after_open(&c, TsOpen::Unsupported, &l), TsStep::Skip);
    assert_eq!(p.after_open(&c, TsOpen::Failed, &l), TsStep::Skip);
    assert!(!p.accept_read(&c, TsRead::PerFileExceeded, None, &[], &l));
    assert!(!p.accept_read(&c, TsRead::Failed, None, &[], &l));
    let r = p.finish();
    assert_eq!(
        r.warnings,
        vec![
            TypeScriptInspectionWarning::SymlinkedFile { path: "x.ts".into() },
            TypeScriptInspectionWarning::ReadFailure { path: "x.ts".into() },
            TypeScriptInspectionWarning::ReadFailure { path: "x.ts".into() },
            TypeScriptInspectionWarning::OversizedFile { path: "x.ts".into(), limit: 1 << 16, observed: (1 << 16) + 1 },
            TypeScriptInspectionWarning::ReadFailure { path: "x.ts".into() },
        ]
    );
    assert_eq!(r.state, SnapshotState::LimitExceeded { limit: InspectionLimit::TraversalDepth { max: 6 } });
}

#[test]
fn limits_stop_inspection() {
    let mut l = limits();
    l.max_inspection_files = 1;
    let mut p = TypeScriptProject::new(0, false, &l);
    let c = source("a.ts");
    assert_eq!(p.after_open(&c, TsOpen::Opened, &l), TsStep::Read);
    assert_eq!(p.after_open(&c, TsOpen::Opened, &l), TsStep::Stop);
    let limit = InspectionLimit::FileCount { max: 1, observed: 2 };
    assert_eq!(p.state, SnapshotState::LimitExceeded { limit });

    let mut l = limits();
    l.max_inspection_bytes = 3;
    let mut p = TypeScriptProject::new(0, false, &l);
    assert_eq!(p.remaining_bytes(&l), 3);
    assert!(p.accept_read(&c, TsRead::Accepted(b"abcd".to_vec()), None, &[], &l));
    let limit = InspectionLimit::TotalBytes { max: 3, observed: 4 };
    assert_eq!(p.state, SnapshotState::LimitExceeded { limit });
    assert_eq!(p.finish().warnings, vec![TypeScriptInspectionWarning::LimitExceeded { limit }]);

    let mut p = TypeScriptProject::new(0, false, &limits());
    assert!(p.wall_clock_gate(1_001, &limits()));
    let wall = InspectionLimit::WallClock { max_millis: 1_000, observed_millis: 1_001 };
    assert_eq!(p.state, SnapshotState::LimitExceeded { limit: wall });
}

#[test]
fn masking_keeps_offsets_and_newlines() {
    let source = "let a = 'x\n'; // note\n/* block\n */ const b = \"s\";\n";
    let masked = mask(source, true);
    assert_eq!(masked.len(), source.len());
    for (m, s) in masked.bytes().zip(source.bytes()) {
        assert_eq!(m == b'\n', s == b'\n');
    }
    assert!(!masked.contains("note"));
    assert!(!masked.contains("block"));
}

#[test]
fn import_is_located_at_its_statement_line() {
    let b = SourceLocation { path: "a.ts".into(), line: None, column: None, content_hash: "h".into() };
    let text = "// import * as y from '@justinelliottcobb/amari-wasm';\nimport a from 'x';\nimport * as amari from '@justinelliottcobb/amari-wasm';";
    let found = scan_imports(text, &b);
    assert_eq!(
        found,
        vec![TypeScriptImport {
            package_name: PKG.into(),
            imported_name: None,
            local_name: Some("amari".into()),
            kind: TypeScriptImportKind::Namespace,
            type_only: false,
            source: SourceLocation { line: Some(3), ..b.clone() },
        }]
    );
}

#[test]
fn mask_keeps_multibyte_text_valid() {
    let source = "é // ü\n\"ö\"";
    let masked = mask(source, true);
    assert_eq!(masked, "é      \n    ");
    assert_eq!(masked.len(), source.len());
    assert_eq!(mask(source, false), "é      \n\"ö\"");
}
