//! The Rust syntax of one source file as plain data: `syn` parses the text,
//! and a visitor records, in visiting order, every `use` leaf, `extern
//! crate`, path reference (expression, type, trait bound, macro) and
//! attribute, with the position where it starts.

use vstd::prelude::*;

use crate::inspect::rust::types::RustUsageKind;

verus! {

/// `syn::File`.
#[verifier::external_type_specification]
#[verifier::external_body]
pub struct ExSynFile(syn::File);

/// `syn::ItemUse`.
#[verifier::external_type_specification]
#[verifier::external_body]
pub struct ExItemUse(syn::ItemUse);

/// `syn::ItemExternCrate`.
#[verifier::external_type_specification]
#[verifier::external_body]
pub struct ExItemExternCrate(syn::ItemExternCrate);

/// `syn::ExprPath`.
#[verifier::external_type_specification]
#[verifier::external_body]
pub struct ExExprPath(syn::ExprPath);

/// `syn::TypePath`.
#[verifier::external_type_specification]
#[verifier::external_body]
pub struct ExTypePath(syn::TypePath);

/// `syn::TraitBound`.
#[verifier::external_type_specification]
#[verifier::external_body]
pub struct ExTraitBound(syn::TraitBound);

/// `syn::ExprMacro`.
#[verifier::external_type_specification]
#[verifier::external_body]
pub struct ExExprMacro(syn::ExprMacro);

/// `syn::StmtMacro`.
#[verifier::external_type_specification]
#[verifier::external_body]
pub struct ExStmtMacro(syn::StmtMacro);

/// `syn::Attribute`.
#[verifier::external_type_specification]
#[verifier::external_body]
pub struct ExAttribute(syn::Attribute);

/// `syn::UseTree`.
#[verifier::external_type_specification]
#[verifier::external_body]
pub struct ExUseTree(syn::UseTree);

/// `syn::Path`.
#[verifier::external_type_specification]
#[verifier::external_body]
pub struct ExSynPath(syn::Path);

/// `syn::Expr`.
#[verifier::external_type_specification]
#[verifier::external_body]
pub struct ExSynExpr(syn::Expr);

/// `proc_macro2::Ident`.
#[verifier::external_type_specification]
#[verifier::external_body]
pub struct ExIdent(proc_macro2::Ident);

/// `proc_macro2::Span`.
#[verifier::external_type_specification]
#[verifier::external_body]
pub struct ExSpan(proc_macro2::Span);

/// Where a syntax node starts: its 1-based line (0 when unknown) and its
/// 0-based column, as `syn` reports them.
#[derive(Clone, Copy, Debug, PartialEq, Eq, Structural)]
pub struct SpanPos {
    /// 1-based line, 0 when unknown.
    pub line: usize,
    /// 0-based column.
    pub column: usize,
}

/// The meta part of an attribute, as written.
#[derive(Debug)]
pub enum MetaSyntax {
    /// `#[name]`.
    Path,
    /// `#[name(tokens)]`: the text of the tokens.
    List(String),
    /// `#[name = value]`: the token text of the value, and the value of the
    /// string literal when the value is one.
    NameValue(String, Option<String>),
}

/// An attribute, as written.
#[derive(Debug)]
pub struct AttrSyntax {
    /// The attribute's path when it is a single identifier.
    pub ident: Option<String>,
    /// The identifiers of the attribute's path.
    pub segments: Vec<String>,
    /// Whether it is an inner attribute (`#![...]`).
    pub inner: bool,
    /// Its meta.
    pub meta: MetaSyntax,
    /// Where it starts.
    pub pos: SpanPos,
}

/// One recorded syntax node of a source file.
#[derive(Debug)]
pub enum SyntaxEvent {
    /// A leaf of a `use` tree: the identifiers leading to it, its name
    /// (none for a glob), and where the name (for a glob, the item) starts.
    UseLeaf {
        /// Identifiers before the leaf.
        prefix: Vec<String>,
        /// The leaf's name; none for `*`.
        leaf: Option<String>,
        /// Where it starts.
        pos: SpanPos,
    },
    /// An `extern crate` item: its crate identifier.
    ExternCrate {
        /// The crate identifier.
        ident: String,
        /// Where the identifier starts.
        pos: SpanPos,
    },
    /// A path in an expression, a type, a trait bound or a macro call.
    PathRef {
        /// The path's identifiers.
        segments: Vec<String>,
        /// Where the path occurs.
        kind: RustUsageKind,
        /// Where the path starts.
        pos: SpanPos,
    },
    /// An attribute.
    Attribute(AttrSyntax),
}

/// The start position of a span (`proc_macro2::Span::start`).
#[verifier::external_body]
fn span_pos(span: proc_macro2::Span) -> (r: SpanPos) {
    let s = span.start();
    SpanPos { line: s.line, column: s.column }
}

/// The identifiers of a path's segments, in order.
#[verifier::external_body]
fn path_idents(path: &syn::Path) -> (r: Vec<String>) {
    path.segments.iter().map(|s| s.ident.to_string()).collect()
}

/// The `use` leaf named `ident` below `prefix`, at the name.
#[verifier::external_body]
fn named_leaf(prefix: Vec<String>, ident: &proc_macro2::Ident) -> (r: SyntaxEvent) {
    SyntaxEvent::UseLeaf { prefix, leaf: Some(ident.to_string()), pos: span_pos(ident.span()) }
}

/// The leaves of a `use` tree below `prefix`, in order, appended to `out`.
#[verifier::external_body]
fn use_leaves(tree: &syn::UseTree, prefix: Vec<String>, item: proc_macro2::Span, out: &mut Vec<SyntaxEvent>) {
    match tree {
        syn::UseTree::Path(p) => {
            let mut q = prefix;
            q.push(p.ident.to_string());
            use_leaves(&p.tree, q, item, out)
        },
        syn::UseTree::Name(n) => out.push(named_leaf(prefix, &n.ident)),
        syn::UseTree::Rename(n) => out.push(named_leaf(prefix, &n.ident)),
        syn::UseTree::Glob(_) => out.push(SyntaxEvent::UseLeaf { prefix, leaf: None, pos: span_pos(item) }),
        syn::UseTree::Group(g) => g.items.iter().for_each(|t| use_leaves(t, prefix.clone(), item, out)),
    }
}

/// The value of a string literal expression.
#[verifier::external_body]
fn lit_str_value(expr: &syn::Expr) -> (r: Option<String>) {
    match expr {
        syn::Expr::Lit(l) => match &l.lit {
            syn::Lit::Str(s) => Some(s.value()),
            _ => None,
        },
        _ => None,
    }
}

/// An attribute as plain data.
#[verifier::external_body]
fn attr_syntax(attr: &syn::Attribute) -> (r: AttrSyntax) {
    let meta = match &attr.meta {
        syn::Meta::Path(_) => MetaSyntax::Path,
        syn::Meta::List(l) => MetaSyntax::List(l.tokens.to_string()),
        syn::Meta::NameValue(nv) => MetaSyntax::NameValue(quote::ToTokens::to_token_stream(&nv.value).to_string(), lit_str_value(&nv.value)),
    };
    let inner = match attr.style {
        syn::AttrStyle::Inner(_) => true,
        syn::AttrStyle::Outer => false,
    };
    let pos = span_pos(syn::spanned::Spanned::span(attr));
    AttrSyntax { ident: attr.path().get_ident().map(|i| i.to_string()), segments: path_idents(attr.path()), inner, meta, pos }
}

/// Records syntax events while `syn` walks a file.
struct SyntaxCollector {
    events: Vec<SyntaxEvent>,
}

impl<'ast> syn::visit::Visit<'ast> for SyntaxCollector {
    #[verifier::external_body]
    fn visit_item_use(&mut self, i: &'ast syn::ItemUse) {
        use_leaves(&i.tree, Vec::new(), syn::spanned::Spanned::span(i), &mut self.events);
        syn::visit::visit_item_use(self, i);
    }

    #[verifier::external_body]
    fn visit_item_extern_crate(&mut self, i: &'ast syn::ItemExternCrate) {
        self.events.push(SyntaxEvent::ExternCrate { ident: i.ident.to_string(), pos: span_pos(i.ident.span()) });
        syn::visit::visit_item_extern_crate(self, i);
    }

    #[verifier::external_body]
    fn visit_expr_path(&mut self, e: &'ast syn::ExprPath) {
        let pos = span_pos(syn::spanned::Spanned::span(&e.path));
        self.events.push(SyntaxEvent::PathRef { segments: path_idents(&e.path), kind: RustUsageKind::PathExpression, pos });
        syn::visit::visit_expr_path(self, e);
    }

    #[verifier::external_body]
    fn visit_type_path(&mut self, t: &'ast syn::TypePath) {
        let pos = span_pos(syn::spanned::Spanned::span(&t.path));
        self.events.push(SyntaxEvent::PathRef { segments: path_idents(&t.path), kind: RustUsageKind::PathType, pos });
        syn::visit::visit_type_path(self, t);
    }

    #[verifier::external_body]
    fn visit_trait_bound(&mut self, t: &'ast syn::TraitBound) {
        let pos = span_pos(syn::spanned::Spanned::span(&t.path));
        self.events.push(SyntaxEvent::PathRef { segments: path_idents(&t.path), kind: RustUsageKind::PathTrait, pos });
        syn::visit::visit_trait_bound(self, t);
    }

    #[verifier::external_body]
    fn visit_expr_macro(&mut self, m: &'ast syn::ExprMacro) {
        let pos = span_pos(syn::spanned::Spanned::span(&m.mac.path));
        self.events.push(SyntaxEvent::PathRef { segments: path_idents(&m.mac.path), kind: RustUsageKind::PathMacro, pos });
        syn::visit::visit_expr_macro(self, m);
    }

    #[verifier::external_body]
    fn visit_stmt_macro(&mut self, m: &'ast syn::StmtMacro) {
        let pos = span_pos(syn::spanned::Spanned::span(&m.mac.path));
        self.events.push(SyntaxEvent::PathRef { segments: path_idents(&m.mac.path), kind: RustUsageKind::PathMacro, pos });
        syn::visit::visit_stmt_macro(self, m);
    }

    #[verifier::external_body]
    fn visit_attribute(&mut self, a: &'ast syn::Attribute) {
        self.events.push(SyntaxEvent::Attribute(attr_syntax(a)));
        syn::visit::visit_attribute(self, a);
    }
}

/// The events of a syntax result as a sequence.
pub open spec fn syntax_view(r: Result<Vec<SyntaxEvent>, SpanPos>) -> Result<Seq<SyntaxEvent>, SpanPos> {
    match r {
        Ok(v) => Ok(v@),
        Err(p) => Err(p),
    }
}

/// The syntax events `syn` gives for a source text, or where its parse
/// error starts.
pub uninterp spec fn spec_rust_syntax(source: Seq<char>) -> Result<Seq<SyntaxEvent>, SpanPos>;

/// The syntax events of a source text (`syn::parse_file`, then a visit of
/// the whole file), or the start of the parse error's span. The result is a
/// function of the text alone.
#[verifier::external_body]
pub(crate) fn rust_syntax(source: &str) -> (r: Result<Vec<SyntaxEvent>, SpanPos>)
    ensures
        syntax_view(r) == spec_rust_syntax(source@),
{
    match syn::parse_file(source) {
        Ok(file) => {
            let mut c = SyntaxCollector { events: Vec::new() };
            syn::visit::Visit::visit_file(&mut c, &file);
            Ok(c.events)
        },
        Err(e) => Err(span_pos(e.span())),
    }
}

} // verus!
