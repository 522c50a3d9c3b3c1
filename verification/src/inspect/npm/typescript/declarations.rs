//! Exports and capabilities of the installed generated declaration surface.

use vstd::prelude::*;

use super::types::{TypeScriptCapabilityEvidence, TypeScriptDeclarationExport, TypeScriptExportKind};
use crate::inspect::snapshot::SourceLocation;
use crate::order::views;
use crate::text::{chars_of, first_index_of, str_eq, string_of, subrange_vec};

verus! {

/// One exported class of a generated declaration surface.
pub struct WasmClass {
    /// Class name.
    pub name: String,
    /// Instance method names.
    pub methods: Vec<String>,
    /// Static method names.
    pub static_methods: Vec<String>,
    /// Getter names.
    pub getters: Vec<String>,
}

/// The exports of a generated declaration file.
pub struct WasmSurface {
    /// Exported classes.
    pub classes: Vec<WasmClass>,
    /// Exported top-level function names.
    pub functions: Vec<String>,
    /// Exported enum names.
    pub enums: Vec<String>,
    /// Exported interface names.
    pub interfaces: Vec<String>,
    /// Exported type alias names.
    pub type_aliases: Vec<String>,
}

/// A catalog mapping from a `Class.member` WASM path to a capability.
pub struct WasmCapabilityMapping {
    /// `Class.member` path.
    pub wasm_path: String,
    /// Capability identifier.
    pub capability_id: String,
}

/// View of a declaration export: name, kind, location.
pub open spec fn export_view(e: TypeScriptDeclarationExport) -> (Seq<char>, TypeScriptExportKind, (
    Seq<char>,
    Option<u32>,
    Option<u32>,
    Seq<char>,
)) {
    (e.name@, e.kind, e.source@)
}

/// View of capability evidence: path, capability, location.
pub open spec fn capability_view(e: TypeScriptCapabilityEvidence) -> (Seq<char>, Seq<char>, (
    Seq<char>,
    Option<u32>,
    Option<u32>,
    Seq<char>,
)) {
    (e.wasm_path@, e.capability_id@, e.source@)
}

/// Exports of one kind for a list of names, all at `src`.
pub open spec fn named_exports(
    names: Seq<Seq<char>>,
    kind: TypeScriptExportKind,
    src: (Seq<char>, Option<u32>, Option<u32>, Seq<char>),
) -> Seq<(Seq<char>, TypeScriptExportKind, (Seq<char>, Option<u32>, Option<u32>, Seq<char>))> {
    names.map_values(|n: Seq<char>| (n, kind, src))
}

/// Class names of a surface.
pub open spec fn class_names(s: WasmSurface) -> Seq<Seq<char>> {
    s.classes@.map_values(|c: WasmClass| c.name@)
}

/// Exports of a surface: classes, functions, enums, interfaces, then type
/// aliases, each in surface order.
pub open spec fn surface_exports(s: WasmSurface, src: (Seq<char>, Option<u32>, Option<u32>, Seq<char>)) -> Seq<
    (Seq<char>, TypeScriptExportKind, (Seq<char>, Option<u32>, Option<u32>, Seq<char>)),
> {
    named_exports(class_names(s), TypeScriptExportKind::Class, src) + named_exports(
        views(s.functions@),
        TypeScriptExportKind::Function,
        src,
    ) + named_exports(views(s.enums@), TypeScriptExportKind::Enum, src) + named_exports(
        views(s.interfaces@),
        TypeScriptExportKind::Interface,
        src,
    ) + named_exports(views(s.type_aliases@), TypeScriptExportKind::TypeAlias, src)
}

/// Whether class `c` has member `m` as a method, static method or getter.
pub open spec fn class_has_member(c: WasmClass, m: Seq<char>) -> bool {
    views(c.methods@).contains(m) || views(c.static_methods@).contains(m) || views(c.getters@).contains(m)
}

/// Whether the surface has `path` = `Class.member` (split at the first `.`).
pub open spec fn surface_has_path(s: WasmSurface, path: Seq<char>) -> bool {
    let d = first_index_of(path, '.', 0);
    &&& d < path.len()
    &&& exists|i: int|
        0 <= i < s.classes@.len() && s.classes@[i].name@ == path.take(d) && #[trigger] class_has_member(
            s.classes@[i],
            path.skip(d + 1),
        )
}

proof fn lemma_first_dot(name: Seq<char>, rest: Seq<char>, i: int)
    requires
        0 <= i <= name.len(),
        !name.contains('.'),
    ensures
        first_index_of(name + seq!['.'] + rest, '.', i) == name.len(),
    decreases name.len() - i,
{
    let path = name + seq!['.'] + rest;
    if i < name.len() {
        assert(path[i] == name[i]);
        assert(name[i] != '.');
        lemma_first_dot(name, rest, i + 1);
    } else {
        assert(path[i] == '.');
    }
}

/// A `Class.member` path is supported exactly when the surface has a class
/// of that name whose instance methods, static methods or getters include
/// the member.
pub proof fn lemma_class_member_path(s: WasmSurface, name: Seq<char>, member: Seq<char>)
    requires
        !name.contains('.'),
    ensures
        surface_has_path(s, name + seq!['.'] + member) <==> exists|i: int|
            0 <= i < s.classes@.len() && (#[trigger] s.classes@[i]).name@ == name && (views(
                s.classes@[i].methods@,
            ).contains(member) || views(s.classes@[i].static_methods@).contains(member) || views(
                s.classes@[i].getters@,
            ).contains(member)),
{
    let path = name + seq!['.'] + member;
    lemma_first_dot(name, member, 0);
    let d = name.len() as int;
    assert(path.take(d) =~= name);
    assert(path.skip(d + 1) =~= member);
    if exists|i: int|
        0 <= i < s.classes@.len() && (#[trigger] s.classes@[i]).name@ == name && (views(
            s.classes@[i].methods@,
        ).contains(member) || views(s.classes@[i].static_methods@).contains(member) || views(
            s.classes@[i].getters@,
        ).contains(member)) {
        let i = choose|i: int|
            0 <= i < s.classes@.len() && (#[trigger] s.classes@[i]).name@ == name && (views(
                s.classes@[i].methods@,
            ).contains(member) || views(s.classes@[i].static_methods@).contains(member) || views(
                s.classes@[i].getters@,
            ).contains(member));
        assert(class_has_member(s.classes@[i], path.skip(d + 1)));
    }
    if surface_has_path(s, path) {
        let i = choose|i: int|
            0 <= i < s.classes@.len() && s.classes@[i].name@ == path.take(d) && #[trigger] class_has_member(
                s.classes@[i],
                path.skip(d + 1),
            );
        assert(s.classes@[i].name@ == name);
    }
}

/// Capabilities supported by the surface, in mapping order.
pub open spec fn surface_capabilities(
    s: WasmSurface,
    maps: Seq<WasmCapabilityMapping>,
    src: (Seq<char>, Option<u32>, Option<u32>, Seq<char>),
) -> Seq<(Seq<char>, Seq<char>, (Seq<char>, Option<u32>, Option<u32>, Seq<char>))>
    decreases maps.len(),
{
    if maps.len() == 0 {
        seq![]
    } else {
        let m = maps.last();
        surface_capabilities(s, maps.drop_last(), src) + if surface_has_path(s, m.wasm_path@) {
            seq![(m.wasm_path@, m.capability_id@, src)]
        } else {
            seq![]
        }
    }
}

fn push_exports(
    names: &Vec<String>,
    kind: TypeScriptExportKind,
    src: &SourceLocation,
    out: &mut Vec<TypeScriptDeclarationExport>,
)
    ensures
        final(out)@.map_values(|e: TypeScriptDeclarationExport| export_view(e)) == old(out)@.map_values(
            |e: TypeScriptDeclarationExport| export_view(e),
        ) + named_exports(views(names@), kind, src@),
{
    let ghost o = out@.map_values(|e: TypeScriptDeclarationExport| export_view(e));
    let mut k: usize = 0;
    while k < names.len()
        invariant
            k <= names@.len(),
            out@.map_values(|e: TypeScriptDeclarationExport| export_view(e)) == o + named_exports(
                views(names@.take(k as int)),
                kind,
                src@,
            ),
        decreases names@.len() - k,
    {
        let ghost prev = out@;
        let e = TypeScriptDeclarationExport { name: names[k].clone(), kind, source: src.clone() };
        assert(export_view(e) == (names@[k as int]@, kind, src@));
        out.push(e);
        assert(out@.map_values(|e: TypeScriptDeclarationExport| export_view(e)) =~= prev.map_values(
            |e: TypeScriptDeclarationExport| export_view(e),
        ).push(export_view(e)));
        assert(views(names@.take(k + 1)) =~= views(names@.take(k as int)).push(names@[k as int]@));
        assert(named_exports(views(names@.take(k + 1)), kind, src@) =~= named_exports(
            views(names@.take(k as int)),
            kind,
            src@,
        ).push((names@[k as int]@, kind, src@)));
        assert(out@.map_values(|e: TypeScriptDeclarationExport| export_view(e)) =~= o + named_exports(
            views(names@.take(k + 1)),
            kind,
            src@,
        ));
        k = k + 1;
    }
    assert(names@.take(names@.len() as int) =~= names@);
}

/// The exports of a declaration surface, each located at `src`.
pub fn scan_declaration_exports(surface: &WasmSurface, src: &SourceLocation) -> (r: Vec<
    TypeScriptDeclarationExport,
>)
    ensures
        r@.map_values(|e: TypeScriptDeclarationExport| export_view(e)) == surface_exports(*surface, src@),
{
    let mut out: Vec<TypeScriptDeclarationExport> = Vec::new();
    let mut names: Vec<String> = Vec::new();
    let mut k: usize = 0;
    while k < surface.classes.len()
        invariant
            k <= surface.classes@.len(),
            views(names@) == class_names(*surface).take(k as int),
        decreases surface.classes@.len() - k,
    {
        let ghost prev = names@;
        names.push(surface.classes[k].name.clone());
        assert(views(names@) =~= views(prev).push(surface.classes@[k as int].name@));
        assert(class_names(*surface).take(k + 1) =~= class_names(*surface).take(k as int).push(
            surface.classes@[k as int].name@,
        ));
        k = k + 1;
    }
    assert(class_names(*surface).take(surface.classes@.len() as int) =~= class_names(*surface));
    assert(out@.map_values(|e: TypeScriptDeclarationExport| export_view(e)) =~= Seq::empty());
    push_exports(&names, TypeScriptExportKind::Class, src, &mut out);
    push_exports(&surface.functions, TypeScriptExportKind::Function, src, &mut out);
    push_exports(&surface.enums, TypeScriptExportKind::Enum, src, &mut out);
    push_exports(&surface.interfaces, TypeScriptExportKind::Interface, src, &mut out);
    push_exports(&surface.type_aliases, TypeScriptExportKind::TypeAlias, src, &mut out);
    assert(out@.map_values(|e: TypeScriptDeclarationExport| export_view(e)) =~= surface_exports(*surface, src@));
    out
}

fn list_contains(v: &Vec<String>, s: &[char]) -> (r: bool)
    ensures
        r == views(v@).contains(s@),
{
    let text = string_of(s);
    let mut k: usize = 0;
    while k < v.len()
        invariant
            k <= v@.len(),
            text@ == s@,
            forall|j: int| 0 <= j < k ==> v@[j]@ != s@,
        decreases v@.len() - k,
    {
        if str_eq(v[k].as_str(), text.as_str()) {
            assert(views(v@)[k as int] == s@);
            return true;
        }
        k = k + 1;
    }
    assert forall|j: int| 0 <= j < views(v@).len() implies views(v@)[j] != s@ by {
        assert(views(v@)[j] == v@[j]@);
    }
    false
}

/// Whether the surface has the `Class.member` path.
pub fn has_path(surface: &WasmSurface, path: &str) -> (r: bool)
    ensures
        r == surface_has_path(*surface, path@),
{
    let p = chars_of(path);
    let mut d: usize = 0;
    while d < p.len() && p[d] != '.'
        invariant
            d <= p@.len(),
            p@ == path@,
            first_index_of(p@, '.', d as int) == first_index_of(p@, '.', 0),
        decreases p@.len() - d,
    {
        d = d + 1;
    }
    assert(first_index_of(p@, '.', d as int) == d);
    if d >= p.len() {
        return false;
    }
    let class_name = subrange_vec(p.as_slice(), 0, d);
    let member = subrange_vec(p.as_slice(), d + 1, p.len());
    assert(class_name@ =~= path@.take(d as int));
    assert(member@ =~= path@.skip(d + 1));
    let cname = string_of(class_name.as_slice());
    let mut i: usize = 0;
    while i < surface.classes.len()
        invariant
            i <= surface.classes@.len(),
            cname@ == path@.take(d as int),
            member@ == path@.skip(d + 1),
            d as int == first_index_of(path@, '.', 0),
            d < path@.len(),
            forall|j: int|
                0 <= j < i ==> !(surface.classes@[j].name@ == path@.take(d as int) && #[trigger] class_has_member(
                    surface.classes@[j],
                    path@.skip(d + 1),
                )),
        decreases surface.classes@.len() - i,
    {
        let c = &surface.classes[i];
        if str_eq(c.name.as_str(), cname.as_str()) {
            let m = member.as_slice();
            if list_contains(&c.methods, m) || list_contains(&c.static_methods, m) || list_contains(&c.getters, m) {
                assert(class_has_member(surface.classes@[i as int], path@.skip(d + 1)));
                return true;
            }
        }
        i = i + 1;
    }
    false
}

/// The capabilities a declaration surface supports, in mapping order, each
/// located at `src`.
pub fn scan_declaration_capabilities(
    surface: &WasmSurface,
    mappings: &[WasmCapabilityMapping],
    src: &SourceLocation,
) -> (r: Vec<TypeScriptCapabilityEvidence>)
    ensures
        r@.map_values(|e: TypeScriptCapabilityEvidence| capability_view(e)) == surface_capabilities(
            *surface,
            mappings@,
            src@,
        ),
{
    let mut out: Vec<TypeScriptCapabilityEvidence> = Vec::new();
    let mut k: usize = 0;
    while k < mappings.len()
        invariant
            k <= mappings@.len(),
            out@.map_values(|e: TypeScriptCapabilityEvidence| capability_view(e)) == surface_capabilities(
                *surface,
                mappings@.take(k as int),
                src@,
            ),
        decreases mappings@.len() - k,
    {
        let m = &mappings[k];
        assert(mappings@.take(k + 1).drop_last() =~= mappings@.take(k as int));
        let ghost before = out@.map_values(|e: TypeScriptCapabilityEvidence| capability_view(e));
        if has_path(surface, m.wasm_path.as_str()) {
            out.push(
                TypeScriptCapabilityEvidence {
                    wasm_path: m.wasm_path.clone(),
                    capability_id: m.capability_id.clone(),
                    source: src.clone(),
                },
            );
            assert(out@.map_values(|e: TypeScriptCapabilityEvidence| capability_view(e)) =~= before.push(
                (m.wasm_path@, m.capability_id@, src@),
            ));
        }
        k = k + 1;
    }
    assert(mappings@.take(mappings@.len() as int) =~= mappings@);
    out
}

} // verus!
