use amari_discovery::inspect::rust::comments::{extract_comment_segments, AnnotatedSegment};
use amari_discovery::inspect::rust::parser::{DocSegment, LineOffsets};
use amari_discovery::inspect::rust::vocabulary::{find_ascii_case_insensitive, scan_vocabulary};
use amari_discovery::inspect::snapshot::SourceLocation;

fn texts(segs: &[AnnotatedSegment]) -> Vec<String> {
    segs.iter()
        .map(|s| String::from_utf8_lossy(&s.text).trim().to_string())
        .collect()
}

#[test]
fn line_offsets_basic() {
    let src = "line1\nline2\nline3";
    let lo = LineOffsets::from_source(src);
    assert_eq!(lo.line_col(0), Some((1, 1)));
    assert_eq!(lo.line_col(6), Some((2, 1)));
    assert_eq!(lo.line_col(12), Some((3, 1)));
    assert!(lo.line_col(100).is_some());
}

#[test]
fn line_offsets_mid_line() {
    let src = "abc\ndef";
    let lo = LineOffsets::from_source(src);
    assert_eq!(lo.line_col(1), Some((1, 2)));
    assert_eq!(lo.line_col(5), Some((2, 2)));
}

#[test]
fn test_comment_extraction_basic() {
    let source = "// line comment\nlet x = 1; /* block comment */";
    let t = texts(&extract_comment_segments(source));
    assert!(t.iter().any(|t| t.contains("line comment")));
    assert!(t.iter().any(|t| t.contains("block comment")));
}

#[test]
fn test_comment_string_literal_not_comment() {
    let source = "let s = \"// not a comment\"; // real comment";
    let t = texts(&extract_comment_segments(source));
    assert!(!t.iter().any(|t| t.contains("not a comment")));
    assert!(t.iter().any(|t| t.contains("real comment")));
}

#[test]
fn test_comment_raw_string_not_comment() {
    let source = "// top comment\nlet s = r#\"// not a comment either\"#; // bottom";
    let t = texts(&extract_comment_segments(source));
    assert!(t.iter().any(|t| t.contains("top comment")));
    assert!(!t.iter().any(|t| t.contains("not a comment either")));
    assert!(t.iter().any(|t| t.contains("bottom")));
}

#[test]
fn test_comment_byte_string_not_comment() {
    let source = "// first\nlet b = b\"// inside byte string\"; // second";
    let t = texts(&extract_comment_segments(source));
    assert!(t.iter().any(|t| t.contains("first")));
    assert!(!t.iter().any(|t| t.contains("inside byte string")));
    assert!(t.iter().any(|t| t.contains("second")));
}

#[test]
fn test_comment_char_literal_not_comment() {
    let source = "let c = '\"'; // real";
    let t = texts(&extract_comment_segments(source));
    assert!(t.iter().any(|t| t.contains("real")));
}

#[test]
fn test_comment_byte_char_literal_not_comment() {
    let source = "let b = b'/'; // real";
    let t = texts(&extract_comment_segments(source));
    assert!(t.iter().any(|t| t.contains("real")));
}

#[test]
fn test_nested_block_comments() {
    let source = "/* outer /* inner */ outer2 */ // line";
    let t = texts(&extract_comment_segments(source));
    assert!(t.iter().any(|t| t.contains("outer2")));
    assert!(t.iter().any(|t| t.contains("line")));
}

#[test]
fn test_comment_raw_byte_string_not_comment() {
    let source = "let s = br\"// in raw byte\"; // real";
    let t = texts(&extract_comment_segments(source));
    assert!(!t.iter().any(|t| t.contains("in raw byte")));
    assert!(t.iter().any(|t| t.contains("real")));
}

#[test]
fn test_raw_string_no_hashes() {
    let source = "let s = r\"// not comment\"; // real";
    let t = texts(&extract_comment_segments(source));
    assert!(!t.iter().any(|t| t.contains("not comment")));
    assert!(t.iter().any(|t| t.contains("real")));
}

#[test]
fn test_raw_string_single_hash() {
    let source = "let s = r#\"// not comment\"#; // real";
    let t = texts(&extract_comment_segments(source));
    assert!(!t.iter().any(|t| t.contains("not comment")));
    assert!(t.iter().any(|t| t.contains("real")));
}

#[test]
fn test_raw_byte_string_no_hashes() {
    let source = "let s = br\"// not comment\"; // real";
    let t = texts(&extract_comment_segments(source));
    assert!(!t.iter().any(|t| t.contains("not comment")));
    assert!(t.iter().any(|t| t.contains("real")));
}

#[test]
fn test_raw_byte_string_double_hash() {
    let source = "let s = br##\"// not comment\"##; // real";
    let t = texts(&extract_comment_segments(source));
    assert!(!t.iter().any(|t| t.contains("not comment")));
    assert!(t.iter().any(|t| t.contains("real")));
}

#[test]
fn test_vocabulary_from_doc_segments() {
    let doc_segs = vec![DocSegment {
        text: "tropical algebra for shortest path".into(),
        source: SourceLocation {
            path: "test.rs".into(),
            line: Some(1),
            column: Some(4),
            content_hash: "hash123".into(),
        },
    }];
    let source = "// tropical algebra for shortest path";
    let line_offsets = LineOffsets::from_source(source);
    let evidence = scan_vocabulary(&doc_segs, &[], None, "test.rs", "hash123", &line_offsets);
    let terms: Vec<&str> = evidence.iter().map(|e| e.term.as_str()).collect();
    assert!(terms.contains(&"tropical_algebra"));
    assert!(terms.contains(&"shortest_path"));
}

#[test]
fn test_string_with_vocabulary_not_evidence() {
    let source = "// real comment about gpu\nlet s = \"tropical algebra // BLAS\";";
    let line_offsets = LineOffsets::from_source(source);
    let comment_segs = extract_comment_segments(source);
    let evidence = scan_vocabulary(&[], &comment_segs, None, "test.rs", "hash", &line_offsets);
    let terms: Vec<&str> = evidence.iter().map(|e| e.term.as_str()).collect();
    assert!(terms.contains(&"gpu"));
    assert!(!terms.contains(&"tropical_algebra"));
    assert!(!terms.contains(&"blas"));
}

#[test]
fn test_vocabulary_geometric_algebra() {
    let text = "Clifford algebra and multivector operations with geometric product.";
    let line_offsets = LineOffsets::from_source(text);
    let evidence = scan_vocabulary(&[], &[], Some(text), "test.rs", "hash", &line_offsets);
    let terms: Vec<&str> = evidence.iter().map(|e| e.term.as_str()).collect();
    assert!(terms.contains(&"geometric_algebra"));
}

#[test]
fn test_vocabulary_wasm_no_std() {
    let text = "WASM and WebAssembly target with no_std embedded support.";
    let line_offsets = LineOffsets::from_source(text);
    let evidence = scan_vocabulary(&[], &[], Some(text), "test.rs", "hash", &line_offsets);
    let terms: Vec<&str> = evidence.iter().map(|e| e.term.as_str()).collect();
    assert!(terms.contains(&"wasm"));
    assert!(terms.contains(&"no_std"));
}

#[test]
fn test_vocabulary_ffi_blas() {
    let text = "FFI native linker with BLAS and OpenBLAS integration.";
    let line_offsets = LineOffsets::from_source(text);
    let evidence = scan_vocabulary(&[], &[], Some(text), "test.rs", "hash", &line_offsets);
    let terms: Vec<&str> = evidence.iter().map(|e| e.term.as_str()).collect();
    assert!(terms.contains(&"ffi"));
    assert!(terms.contains(&"native_linker"));
    assert!(terms.contains(&"blas"));
}

#[test]
fn test_vocabulary_has_source_locations() {
    let doc_segs = vec![DocSegment {
        text: "tropical algebra for shortest path".into(),
        source: SourceLocation {
            path: "test.rs".into(),
            line: Some(1),
            column: Some(4),
            content_hash: "hash".into(),
        },
    }];
    let source = "// tropical algebra for shortest path";
    let line_offsets = LineOffsets::from_source(source);
    let evidence = scan_vocabulary(&doc_segs, &[], None, "test.rs", "hash", &line_offsets);
    for ev in &evidence {
        assert!(ev.source.is_some());
        if let Some(ref src) = ev.source {
            assert!(src.line.is_some());
            assert!(src.column.is_some());
        }
    }
    assert!(!evidence.is_empty());
}

#[test]
fn test_ascii_case_insensitive_match() {
    assert_eq!(find_ascii_case_insensitive("WASM target", "wasm"), Some(0));
    assert_eq!(
        find_ascii_case_insensitive("WebAssembly", "webassembly"),
        Some(0)
    );
    assert_eq!(find_ascii_case_insensitive("GPU compute", "gpu"), Some(0));
}

#[test]
fn test_readme_direct_scan() {
    let readme = "# Project\n\nSupports WASM and no_std targets with GPU acceleration.";
    let line_offsets = LineOffsets::from_source(readme);
    let evidence = scan_vocabulary(&[], &[], Some(readme), "README.md", "hash", &line_offsets);
    let terms: Vec<&str> = evidence.iter().map(|e| e.term.as_str()).collect();
    assert!(terms.contains(&"wasm"));
    assert!(terms.contains(&"no_std"));
    assert!(terms.contains(&"gpu"));
    for ev in &evidence {
        assert!(ev.source.is_some());
    }
}
