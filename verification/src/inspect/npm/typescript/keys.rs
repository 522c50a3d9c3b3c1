//! Order keys of TypeScript evidence: evidence lists are sorted by their
//! fields in declaration order and kept free of duplicates (see
//! [`crate::sortkey`] for the encoding).

use vstd::prelude::*;

use super::imports::LocV;
use super::types::{
    ImportV, TypeScriptCapabilityEvidence, TypeScriptDeclarationExport, TypeScriptExportKind,
    TypeScriptFileContext, TypeScriptFileRole, TypeScriptImport, TypeScriptImportKind,
    TypeScriptRuntimeEvidence, TypeScriptRuntimeSignal, TypeScriptVocabularyEvidence,
};
use crate::inspect::snapshot::SourceLocation;
use crate::order::sort_dedup_keyed;
use crate::sortkey::{
    lemma_sorted_unique, sorted_unique_by,
    digits_key, index_key, opt_text_key, push_digits, push_index, push_opt_text_key, push_text_key, text_key,
};
use crate::text::string_of;

verus! {

// ---------------------------------------------------------------------------
// Encodings
// ---------------------------------------------------------------------------

/// Key of an optional line or column.
pub open spec fn opt_u32_key(o: Option<u32>) -> Seq<char> {
    match o {
        None => seq!['\u{0}'],
        Some(n) => seq!['\u{1}'] + digits_key(n as int, 8),
    }
}

/// Key of a source location: path, line, column, content hash.
pub open spec fn loc_key(l: LocV) -> Seq<char> {
    text_key(l.0) + opt_u32_key(l.1) + opt_u32_key(l.2) + text_key(l.3)
}

/// Index of an import kind.
pub open spec fn import_kind_index(k: TypeScriptImportKind) -> int {
    match k {
        TypeScriptImportKind::Named => 0,
        TypeScriptImportKind::Namespace => 1,
        TypeScriptImportKind::Default => 2,
        TypeScriptImportKind::SideEffect => 3,
        TypeScriptImportKind::Dynamic => 4,
        TypeScriptImportKind::Require => 5,
    }
}

/// Index of an export kind.
pub open spec fn export_kind_index(k: TypeScriptExportKind) -> int {
    match k {
        TypeScriptExportKind::Class => 0,
        TypeScriptExportKind::Function => 1,
        TypeScriptExportKind::Enum => 2,
        TypeScriptExportKind::Interface => 3,
        TypeScriptExportKind::TypeAlias => 4,
    }
}

/// Index of a file role.
pub open spec fn role_index(r: TypeScriptFileRole) -> int {
    match r {
        TypeScriptFileRole::Source => 0,
        TypeScriptFileRole::Test => 1,
        TypeScriptFileRole::Example => 2,
        TypeScriptFileRole::Config => 3,
    }
}

/// Index of a runtime signal.
pub open spec fn signal_index(s: TypeScriptRuntimeSignal) -> int {
    match s {
        TypeScriptRuntimeSignal::Vite => 0,
        TypeScriptRuntimeSignal::Webpack => 1,
        TypeScriptRuntimeSignal::Browser => 2,
        TypeScriptRuntimeSignal::Node => 3,
        TypeScriptRuntimeSignal::WebAssembly => 4,
    }
}

/// Order key of an import.
pub open spec fn import_key(v: ImportV) -> Seq<char> {
    text_key(v.0) + opt_text_key(v.1) + opt_text_key(v.2) + index_key(import_kind_index(v.3)) + index_key(
        if v.4 {
            1
        } else {
            0
        },
    ) + loc_key(v.5)
}

/// Order key of a declaration export.
pub open spec fn export_key(e: TypeScriptDeclarationExport) -> Seq<char> {
    text_key(e.name@) + index_key(export_kind_index(e.kind)) + loc_key(e.source@)
}

/// Order key of runtime evidence.
pub open spec fn runtime_key(e: TypeScriptRuntimeEvidence) -> Seq<char> {
    index_key(signal_index(e.signal)) + loc_key(e.source@)
}

/// Order key of a file context.
pub open spec fn context_key(e: TypeScriptFileContext) -> Seq<char> {
    index_key(role_index(e.role)) + loc_key(e.source@)
}

/// Order key of vocabulary evidence.
pub open spec fn vocabulary_key(e: TypeScriptVocabularyEvidence) -> Seq<char> {
    text_key(e.term@) + loc_key(e.source@)
}

/// Order key of capability evidence.
pub open spec fn capability_key(e: TypeScriptCapabilityEvidence) -> Seq<char> {
    text_key(e.wasm_path@) + text_key(e.capability_id@) + loc_key(e.source@)
}

/// Order key of a source location.
pub open spec fn location_key(l: SourceLocation) -> Seq<char> {
    loc_key(l@)
}

// ---------------------------------------------------------------------------
// Executable encodings
// ---------------------------------------------------------------------------

fn push_opt_u32_key(out: &mut Vec<char>, o: Option<u32>)
    ensures
        final(out)@ == old(out)@ + opt_u32_key(o),
{
    let ghost before = out@;
    match o {
        None => {
            out.push('\u{0}');
            assert(out@ =~= before + seq!['\u{0}']);
        },
        Some(n) => {
            out.push('\u{1}');
            push_digits(out, n as u64, 8);
            assert(out@ =~= before + (seq!['\u{1}'] + digits_key(n as int, 8)));
        },
    }
}

/// Appends the key of a source location.
pub fn push_loc_key(out: &mut Vec<char>, l: &SourceLocation)
    ensures
        final(out)@ == old(out)@ + loc_key(l@),
{
    let ghost o = out@;
    push_text_key(out, l.path.as_str());
    push_opt_u32_key(out, l.line);
    push_opt_u32_key(out, l.column);
    push_text_key(out, l.content_hash.as_str());
    assert(out@ =~= o + loc_key(l@));
}

fn import_kind_code(k: TypeScriptImportKind) -> (r: u32)
    ensures
        r as int == import_kind_index(k),
{
    match k {
        TypeScriptImportKind::Named => 0,
        TypeScriptImportKind::Namespace => 1,
        TypeScriptImportKind::Default => 2,
        TypeScriptImportKind::SideEffect => 3,
        TypeScriptImportKind::Dynamic => 4,
        TypeScriptImportKind::Require => 5,
    }
}

fn export_kind_code(k: TypeScriptExportKind) -> (r: u32)
    ensures
        r as int == export_kind_index(k),
{
    match k {
        TypeScriptExportKind::Class => 0,
        TypeScriptExportKind::Function => 1,
        TypeScriptExportKind::Enum => 2,
        TypeScriptExportKind::Interface => 3,
        TypeScriptExportKind::TypeAlias => 4,
    }
}

fn role_code(r: TypeScriptFileRole) -> (c: u32)
    ensures
        c as int == role_index(r),
{
    match r {
        TypeScriptFileRole::Source => 0,
        TypeScriptFileRole::Test => 1,
        TypeScriptFileRole::Example => 2,
        TypeScriptFileRole::Config => 3,
    }
}

fn signal_code(s: TypeScriptRuntimeSignal) -> (c: u32)
    ensures
        c as int == signal_index(s),
{
    match s {
        TypeScriptRuntimeSignal::Vite => 0,
        TypeScriptRuntimeSignal::Webpack => 1,
        TypeScriptRuntimeSignal::Browser => 2,
        TypeScriptRuntimeSignal::Node => 3,
        TypeScriptRuntimeSignal::WebAssembly => 4,
    }
}

fn import_key_of(i: &TypeScriptImport) -> (r: String)
    ensures
        r@ == import_key(i@),
{
    let mut out: Vec<char> = Vec::new();
    push_text_key(&mut out, i.package_name.as_str());
    push_opt_text_key(&mut out, &i.imported_name);
    push_opt_text_key(&mut out, &i.local_name);
    push_index(&mut out, import_kind_code(i.kind));
    push_index(&mut out, if i.type_only { 1 } else { 0 });
    push_loc_key(&mut out, &i.source);
    assert(out@ =~= import_key(i@));
    string_of(out.as_slice())
}

fn export_key_of(e: &TypeScriptDeclarationExport) -> (r: String)
    ensures
        r@ == export_key(*e),
{
    let mut out: Vec<char> = Vec::new();
    push_text_key(&mut out, e.name.as_str());
    push_index(&mut out, export_kind_code(e.kind));
    push_loc_key(&mut out, &e.source);
    assert(out@ =~= export_key(*e));
    string_of(out.as_slice())
}

fn runtime_key_of(e: &TypeScriptRuntimeEvidence) -> (r: String)
    ensures
        r@ == runtime_key(*e),
{
    let mut out: Vec<char> = Vec::new();
    push_index(&mut out, signal_code(e.signal));
    push_loc_key(&mut out, &e.source);
    assert(out@ =~= runtime_key(*e));
    string_of(out.as_slice())
}

fn context_key_of(e: &TypeScriptFileContext) -> (r: String)
    ensures
        r@ == context_key(*e),
{
    let mut out: Vec<char> = Vec::new();
    push_index(&mut out, role_code(e.role));
    push_loc_key(&mut out, &e.source);
    assert(out@ =~= context_key(*e));
    string_of(out.as_slice())
}

fn vocabulary_key_of(e: &TypeScriptVocabularyEvidence) -> (r: String)
    ensures
        r@ == vocabulary_key(*e),
{
    let mut out: Vec<char> = Vec::new();
    push_text_key(&mut out, e.term.as_str());
    push_loc_key(&mut out, &e.source);
    assert(out@ =~= vocabulary_key(*e));
    string_of(out.as_slice())
}

fn capability_key_of(e: &TypeScriptCapabilityEvidence) -> (r: String)
    ensures
        r@ == capability_key(*e),
{
    let mut out: Vec<char> = Vec::new();
    push_text_key(&mut out, e.wasm_path.as_str());
    push_text_key(&mut out, e.capability_id.as_str());
    push_loc_key(&mut out, &e.source);
    assert(out@ =~= capability_key(*e));
    string_of(out.as_slice())
}

fn location_key_of(l: &SourceLocation) -> (r: String)
    ensures
        r@ == location_key(*l),
{
    let mut out: Vec<char> = Vec::new();
    push_loc_key(&mut out, l);
    assert(out@ =~= location_key(*l));
    string_of(out.as_slice())
}

// ---------------------------------------------------------------------------
// Sorting
// ---------------------------------------------------------------------------

/// Imports sorted by their fields, duplicates removed.
pub fn sort_imports(v: Vec<TypeScriptImport>) -> (r: Vec<TypeScriptImport>)
    ensures
        sorted_unique_by(r@, v@, |x: TypeScriptImport| import_key(x@)),
{
    let mut keys: Vec<String> = Vec::new();
    let mut k: usize = 0;
    while k < v.len()
        invariant
            k <= v@.len(),
            keys@.len() == k,
            forall|j: int| 0 <= j < k ==> #[trigger] keys@[j]@ == import_key(v@[j]@),
        decreases v@.len() - k,
    {
        keys.push(import_key_of(&v[k]));
        k = k + 1;
    }
    let ghost items = v@;
    let ghost ks = keys@;
    let r = sort_dedup_keyed(v, keys);
    proof {
        lemma_sorted_unique(r@, items, ks, |x: TypeScriptImport| import_key(x@));
    }
    r
}

/// Declaration exports sorted by their fields, duplicates removed.
pub fn sort_exports(v: Vec<TypeScriptDeclarationExport>) -> (r: Vec<TypeScriptDeclarationExport>)
    ensures
        sorted_unique_by(r@, v@, |x: TypeScriptDeclarationExport| export_key(x)),
{
    let mut keys: Vec<String> = Vec::new();
    let mut k: usize = 0;
    while k < v.len()
        invariant
            k <= v@.len(),
            keys@.len() == k,
            forall|j: int| 0 <= j < k ==> #[trigger] keys@[j]@ == export_key(v@[j]),
        decreases v@.len() - k,
    {
        keys.push(export_key_of(&v[k]));
        k = k + 1;
    }
    let ghost items = v@;
    let ghost ks = keys@;
    let r = sort_dedup_keyed(v, keys);
    proof {
        lemma_sorted_unique(r@, items, ks, |x: TypeScriptDeclarationExport| export_key(x));
    }
    r
}

/// Runtime evidence sorted by its fields, duplicates removed.
pub fn sort_runtime(v: Vec<TypeScriptRuntimeEvidence>) -> (r: Vec<TypeScriptRuntimeEvidence>)
    ensures
        sorted_unique_by(r@, v@, |x: TypeScriptRuntimeEvidence| runtime_key(x)),
{
    let mut keys: Vec<String> = Vec::new();
    let mut k: usize = 0;
    while k < v.len()
        invariant
            k <= v@.len(),
            keys@.len() == k,
            forall|j: int| 0 <= j < k ==> #[trigger] keys@[j]@ == runtime_key(v@[j]),
        decreases v@.len() - k,
    {
        keys.push(runtime_key_of(&v[k]));
        k = k + 1;
    }
    let ghost items = v@;
    let ghost ks = keys@;
    let r = sort_dedup_keyed(v, keys);
    proof {
        lemma_sorted_unique(r@, items, ks, |x: TypeScriptRuntimeEvidence| runtime_key(x));
    }
    r
}

/// File contexts sorted by their fields, duplicates removed.
pub fn sort_contexts(v: Vec<TypeScriptFileContext>) -> (r: Vec<TypeScriptFileContext>)
    ensures
        sorted_unique_by(r@, v@, |x: TypeScriptFileContext| context_key(x)),
{
    let mut keys: Vec<String> = Vec::new();
    let mut k: usize = 0;
    while k < v.len()
        invariant
            k <= v@.len(),
            keys@.len() == k,
            forall|j: int| 0 <= j < k ==> #[trigger] keys@[j]@ == context_key(v@[j]),
        decreases v@.len() - k,
    {
        keys.push(context_key_of(&v[k]));
        k = k + 1;
    }
    let ghost items = v@;
    let ghost ks = keys@;
    let r = sort_dedup_keyed(v, keys);
    proof {
        lemma_sorted_unique(r@, items, ks, |x: TypeScriptFileContext| context_key(x));
    }
    r
}

/// Vocabulary evidence sorted by its fields, duplicates removed.
pub fn sort_vocabulary(v: Vec<TypeScriptVocabularyEvidence>) -> (r: Vec<TypeScriptVocabularyEvidence>)
    ensures
        sorted_unique_by(r@, v@, |x: TypeScriptVocabularyEvidence| vocabulary_key(x)),
{
    let mut keys: Vec<String> = Vec::new();
    let mut k: usize = 0;
    while k < v.len()
        invariant
            k <= v@.len(),
            keys@.len() == k,
            forall|j: int| 0 <= j < k ==> #[trigger] keys@[j]@ == vocabulary_key(v@[j]),
        decreases v@.len() - k,
    {
        keys.push(vocabulary_key_of(&v[k]));
        k = k + 1;
    }
    let ghost items = v@;
    let ghost ks = keys@;
    let r = sort_dedup_keyed(v, keys);
    proof {
        lemma_sorted_unique(r@, items, ks, |x: TypeScriptVocabularyEvidence| vocabulary_key(x));
    }
    r
}

/// Capability evidence sorted by its fields, duplicates removed.
pub fn sort_capabilities(v: Vec<TypeScriptCapabilityEvidence>) -> (r: Vec<TypeScriptCapabilityEvidence>)
    ensures
        sorted_unique_by(r@, v@, |x: TypeScriptCapabilityEvidence| capability_key(x)),
{
    let mut keys: Vec<String> = Vec::new();
    let mut k: usize = 0;
    while k < v.len()
        invariant
            k <= v@.len(),
            keys@.len() == k,
            forall|j: int| 0 <= j < k ==> #[trigger] keys@[j]@ == capability_key(v@[j]),
        decreases v@.len() - k,
    {
        keys.push(capability_key_of(&v[k]));
        k = k + 1;
    }
    let ghost items = v@;
    let ghost ks = keys@;
    let r = sort_dedup_keyed(v, keys);
    proof {
        lemma_sorted_unique(r@, items, ks, |x: TypeScriptCapabilityEvidence| capability_key(x));
    }
    r
}

/// Source locations sorted by their fields, duplicates removed.
pub fn sort_locations(v: Vec<SourceLocation>) -> (r: Vec<SourceLocation>)
    ensures
        sorted_unique_by(r@, v@, |x: SourceLocation| location_key(x)),
{
    let mut keys: Vec<String> = Vec::new();
    let mut k: usize = 0;
    while k < v.len()
        invariant
            k <= v@.len(),
            keys@.len() == k,
            forall|j: int| 0 <= j < k ==> #[trigger] keys@[j]@ == location_key(v@[j]),
        decreases v@.len() - k,
    {
        keys.push(location_key_of(&v[k]));
        k = k + 1;
    }
    let ghost items = v@;
    let ghost ks = keys@;
    let r = sort_dedup_keyed(v, keys);
    proof {
        lemma_sorted_unique(r@, items, ks, |x: SourceLocation| location_key(x));
    }
    r
}

} // verus!
