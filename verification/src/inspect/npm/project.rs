//! The decisions of an npm project inspection: reading `package.json` and
//! a supported `package-lock.json`, resolving the Amari WASM package, and
//! what each read outcome means for the evidence, the warnings, and the
//! completion state.

use vstd::prelude::*;
use vstd::string::StringExecFns;

use crate::error::{DiscoveryError, DiscoveryResult};
use crate::hashing::{sha256_hex, spec_sha256_hex};
use crate::inspect::cargo::lock::utf8_text;
use crate::inspect::cargo::provenance::{sat_add, ProvenanceAccumulator};
use crate::inspect::framing::framed_hash_of;
use crate::inspect::snapshot::{InspectionLimit, InspectionLimits, SnapshotState};
use crate::inspect::npm::json::{
    json_get, json_lookup, json_object, json_object_at, json_string, json_string_at, parse_json,
    spec_parse_json, JsonError, JsonErrorCategory, JsonValue,
};
use crate::inspect::npm::types::{
    npm_warning_views, NpmDependencyEvidence, NpmDependencyKind, NpmInspection, NpmInspectionWarning,
    NpmLock, NpmLockedPackage, NpmPackage, NpmSource, NpmWarningV,
};
use crate::order::{sort_dedup_strings, sorted_dedup, views};
use crate::protocol::Compatibility;
use crate::text::{decimal, opt_view, str_eq, u64_decimal};

verus! {

/// The npm package whose declarations are reported.
pub open spec fn amari_wasm() -> Seq<char> {
    "@justinelliottcobb/amari-wasm"@
}

/// The provenance of an accepted input.
pub open spec fn npm_source_view(path: Seq<char>, b: Seq<u8>) -> (Seq<char>, Option<u64>, Seq<char>, u64) {
    (path, None, spec_sha256_hex(b), b.len() as u64)
}

/// The provenance of an accepted input: its path, hash, and size.
pub fn npm_source(path: &str, bytes: &[u8]) -> (r: NpmSource)
    ensures
        r@ == npm_source_view(path@, bytes@),
{
    NpmSource { path: String::from_str(path), line: None, content_hash: sha256_hex(bytes), byte_count: bytes.len() as u64 }
}

/// A stable description of a JSON error's class.
pub open spec fn json_reason(c: JsonErrorCategory) -> Seq<char> {
    match c {
        JsonErrorCategory::Io => "JSON input could not be read"@,
        JsonErrorCategory::Syntax => "invalid JSON syntax"@,
        JsonErrorCategory::Data => "invalid JSON value"@,
        JsonErrorCategory::Eof => "unexpected end of JSON input"@,
    }
}

/// A stable description of a JSON error's class.
pub fn parse_reason(c: JsonErrorCategory) -> (r: String)
    ensures
        r@ == json_reason(c),
{
    match c {
        JsonErrorCategory::Io => String::from_str("JSON input could not be read"),
        JsonErrorCategory::Syntax => String::from_str("invalid JSON syntax"),
        JsonErrorCategory::Data => String::from_str("invalid JSON value"),
        JsonErrorCategory::Eof => String::from_str("unexpected end of JSON input"),
    }
}

/// The manifest section of a dependency kind.
pub open spec fn section_name(k: NpmDependencyKind) -> Seq<char> {
    match k {
        NpmDependencyKind::Production => "dependencies"@,
        NpmDependencyKind::Development => "devDependencies"@,
        NpmDependencyKind::Optional => "optionalDependencies"@,
        NpmDependencyKind::Peer => "peerDependencies"@,
    }
}

/// The Amari WASM requirement a section declares, when it is a string.
pub open spec fn section_requirement(obj: Seq<(String, JsonValue)>, k: NpmDependencyKind) -> Option<Seq<char>> {
    match json_object_at(obj, section_name(k)) {
        Some(t) => json_string_at(t, amari_wasm()),
        None => None,
    }
}

/// The requirement of one section as a list of zero or one declaration.
pub open spec fn section_declaration(obj: Seq<(String, JsonValue)>, k: NpmDependencyKind) -> Seq<
    (NpmDependencyKind, Seq<char>),
> {
    match section_requirement(obj, k) {
        Some(r) => seq![(k, r)],
        None => seq![],
    }
}

/// The Amari WASM declarations of a manifest object, in section order.
pub open spec fn declared_requirements(obj: Seq<(String, JsonValue)>) -> Seq<(NpmDependencyKind, Seq<char>)> {
    section_declaration(obj, NpmDependencyKind::Production) + section_declaration(
        obj,
        NpmDependencyKind::Development,
    ) + section_declaration(obj, NpmDependencyKind::Optional) + section_declaration(obj, NpmDependencyKind::Peer)
}

/// The reason a declaration without exact lock resolution gives.
pub open spec fn unresolved_reason(req: Seq<char>, cv: Seq<char>) -> Seq<char> {
    "declared requirement "@ + req + " has no supported exact lock resolution for catalog "@ + cv
}

/// The compatibility of a declaration without exact lock resolution.
pub fn unresolved_compatibility(requirement: &str, catalog_version: &str) -> (r: Compatibility)
    ensures
        r.status@ == "unknown_version"@,
        views(r.reasons@) == seq![unresolved_reason(requirement@, catalog_version@)],
{
    let mut m = String::from_str("declared requirement ");
    m.append(requirement);
    m.append(" has no supported exact lock resolution for catalog ");
    m.append(catalog_version);
    let mut reasons: Vec<String> = Vec::new();
    reasons.push(m);
    assert(views(reasons@) =~= seq![unresolved_reason(requirement@, catalog_version@)]);
    Compatibility { status: String::from_str("unknown_version"), reasons }
}

/// Whether `d` is the unresolved declaration `req` of kind `k`.
pub open spec fn npm_dep_is(
    d: NpmDependencyEvidence,
    k: NpmDependencyKind,
    req: Seq<char>,
    cv: Seq<char>,
    src: (Seq<char>, Option<u64>, Seq<char>, u64),
) -> bool {
    &&& d.package_name@ == amari_wasm()
    &&& d.kind == k
    &&& d.declared_version@ == req
    &&& d.resolved_version is None
    &&& d.compatibility.status@ == "unknown_version"@
    &&& views(d.compatibility.reasons@) == seq![unresolved_reason(req, cv)]
    &&& d.manifest_source@ == src
    &&& d.lock_source is None
}

/// Whether `p` is the package a `package.json` object declares.
pub open spec fn npm_package_is(p: NpmPackage, obj: Seq<(String, JsonValue)>, b: Seq<u8>, cv: Seq<char>) -> bool {
    let decl = declared_requirements(obj);
    let src = npm_source_view("package.json"@, b);
    &&& opt_view(p.name) == json_string_at(obj, "name"@)
    &&& opt_view(p.version) == json_string_at(obj, "version"@)
    &&& p.source@ == src
    &&& p.dependencies@.len() == decl.len()
    &&& forall|i: int|
        0 <= i < decl.len() ==> npm_dep_is(#[trigger] p.dependencies@[i], decl[i].0, decl[i].1, cv, src)
}

/// The `package.json` section of each dependency kind, as npm names it.
pub open spec fn manifest_section(k: NpmDependencyKind) -> Seq<char> {
    match k {
        NpmDependencyKind::Production => "dependencies"@,
        NpmDependencyKind::Development => "devDependencies"@,
        NpmDependencyKind::Optional => "optionalDependencies"@,
        NpmDependencyKind::Peer => "peerDependencies"@,
    }
}

/// Every section that maps the Amari WASM package to a requirement string
/// is reported: the package holds a dependency of that section's kind with
/// that requirement, and no two of its dependencies share a kind, so it is
/// the only one; a section that does not declare it gives no dependency of
/// its kind.
pub proof fn lemma_declaring_sections_reported(
    p: NpmPackage,
    obj: Seq<(String, JsonValue)>,
    b: Seq<u8>,
    cv: Seq<char>,
    k: NpmDependencyKind,
)
    requires
        npm_package_is(p, obj, b, cv),
    ensures
        forall|i: int, j: int|
            0 <= i < j < p.dependencies@.len() ==> #[trigger] p.dependencies@[i].kind
                != #[trigger] p.dependencies@[j].kind,
        (match json_object_at(obj, manifest_section(k)) {
            Some(t) => json_string_at(t, "@justinelliottcobb/amari-wasm"@),
            None => None,
        }) matches Some(req) ==> exists|i: int|
            0 <= i < p.dependencies@.len() && (#[trigger] p.dependencies@[i]).kind == k
                && p.dependencies@[i].declared_version@ == req,
        (match json_object_at(obj, manifest_section(k)) {
            Some(t) => json_string_at(t, "@justinelliottcobb/amari-wasm"@),
            None => None,
        }) is None ==> forall|i: int| 0 <= i < p.dependencies@.len() ==> (#[trigger] p.dependencies@[i]).kind != k,
{
    let s1 = section_declaration(obj, NpmDependencyKind::Production);
    let s2 = section_declaration(obj, NpmDependencyKind::Development);
    let s3 = section_declaration(obj, NpmDependencyKind::Optional);
    let s4 = section_declaration(obj, NpmDependencyKind::Peer);
    let decl = declared_requirements(obj);
    let src = npm_source_view("package.json"@, b);
    assert(decl == s1 + s2 + s3 + s4);
    let n1 = s1.len() as int;
    let n2 = n1 + s2.len();
    let n3 = n2 + s3.len();
    assert(s1.len() <= 1 && s2.len() <= 1 && s3.len() <= 1 && s4.len() <= 1);
    assert forall|i: int| 0 <= i < decl.len() implies #[trigger] decl[i].0 == (if i < n1 {
        NpmDependencyKind::Production
    } else if i < n2 {
        NpmDependencyKind::Development
    } else if i < n3 {
        NpmDependencyKind::Optional
    } else {
        NpmDependencyKind::Peer
    }) && decl[i] == (if i < n1 {
        s1[i]
    } else if i < n2 {
        s2[i - n1]
    } else if i < n3 {
        s3[i - n2]
    } else {
        s4[i - n3]
    }) by {
        if i < n1 {
            assert(decl[i] == s1[i]);
        } else if i < n2 {
            assert(decl[i] == s2[i - n1]);
        } else if i < n3 {
            assert(decl[i] == s3[i - n2]);
        } else {
            assert(decl[i] == s4[i - n3]);
        }
    }
    assert forall|i: int, j: int|
        0 <= i < j < p.dependencies@.len() implies #[trigger] p.dependencies@[i].kind
        != #[trigger] p.dependencies@[j].kind by {
        assert(npm_dep_is(p.dependencies@[i], decl[i].0, decl[i].1, cv, src));
        assert(npm_dep_is(p.dependencies@[j], decl[j].0, decl[j].1, cv, src));
        assert(decl[i].0 != decl[j].0);
    }
    assert(manifest_section(k) == section_name(k));
    let m = k;
    let (sk, off) = match m {
        NpmDependencyKind::Production => (s1, 0int),
        NpmDependencyKind::Development => (s2, n1),
        NpmDependencyKind::Optional => (s3, n2),
        NpmDependencyKind::Peer => (s4, n3),
    };
    assert(sk == section_declaration(obj, k));
    match section_requirement(obj, k) {
        Some(req) => {
            assert(decl[off] == sk[0]);
            assert(npm_dep_is(p.dependencies@[off], decl[off].0, decl[off].1, cv, src));
            assert(p.dependencies@[off].kind == k);
        },
        None => {
            assert forall|i: int| 0 <= i < p.dependencies@.len() implies (#[trigger] p.dependencies@[i]).kind
                != k by {
                assert(npm_dep_is(p.dependencies@[i], decl[i].0, decl[i].1, cv, src));
            }
        },
    }
}

/// The message of a `package.json` that does not parse.
pub open spec fn package_error_message(e: JsonError) -> Seq<char> {
    json_reason(e.category) + " in package.json at line "@ + decimal(e.line as nat) + " column "@ + decimal(
        e.column as nat,
    )
}

/// The declaration of one section, if any.
fn section_dependency(
    obj: &Vec<(String, JsonValue)>,
    section: &str,
    kind: NpmDependencyKind,
    catalog_version: &str,
    bytes: &[u8],
) -> (r: Option<NpmDependencyEvidence>)
    requires
        section@ == section_name(kind),
    ensures
        match (r, section_requirement(obj@, kind)) {
            (Some(d), Some(req)) => npm_dep_is(
                d,
                kind,
                req,
                catalog_version@,
                npm_source_view("package.json"@, bytes@),
            ),
            (None, None) => true,
            _ => false,
        },
{
    let table = match json_object(obj, section) {
        Some(t) => t,
        None => {
            return None;
        },
    };
    let requirement = match json_string(table, "@justinelliottcobb/amari-wasm") {
        Some(r) => r,
        None => {
            return None;
        },
    };
    let compatibility = unresolved_compatibility(requirement.as_str(), catalog_version);
    Some(
        NpmDependencyEvidence {
            package_name: String::from_str("@justinelliottcobb/amari-wasm"),
            kind,
            declared_version: requirement,
            resolved_version: None,
            compatibility,
            manifest_source: npm_source("package.json", bytes),
            lock_source: None,
        },
    )
}

/// Parses `package.json`: its name, version, and the Amari WASM package
/// declared in `dependencies`, `devDependencies`, `optionalDependencies`,
/// and `peerDependencies` (in that order), each unresolved.
///
/// # Errors
///
/// Returns [`DiscoveryError::InspectionFailure`] when the bytes are not
/// JSON or the root is not an object.
pub fn parse_package(bytes: &[u8], catalog_version: &str) -> (r: DiscoveryResult<NpmPackage>)
    ensures
        match spec_parse_json(bytes@) {
            Err(e) => r matches Err(DiscoveryError::InspectionFailure(m)) && m@ == package_error_message(e),
            Ok(JsonValue::Object(o)) => r matches Ok(p) && npm_package_is(p, o@, bytes@, catalog_version@),
            Ok(_) => r matches Err(DiscoveryError::InspectionFailure(m)) && m@
                == "package.json root is not an object"@,
        },
{
    let value = match parse_json(bytes) {
        Ok(v) => v,
        Err(e) => {
            let mut m = parse_reason(e.category);
            m.append(" in package.json at line ");
            let l = u64_decimal(e.line as u64);
            m.append(l.as_str());
            m.append(" column ");
            let c = u64_decimal(e.column as u64);
            m.append(c.as_str());
            return Err(DiscoveryError::InspectionFailure(m));
        },
    };
    let obj = match &value {
        JsonValue::Object(o) => o,
        _ => {
            return Err(DiscoveryError::InspectionFailure(String::from_str("package.json root is not an object")));
        },
    };
    let ghost decl = declared_requirements(obj@);
    let ghost src = npm_source_view("package.json"@, bytes@);
    let mut dependencies: Vec<NpmDependencyEvidence> = Vec::new();
    let a = section_dependency(obj, "dependencies", NpmDependencyKind::Production, catalog_version, bytes);
    if let Some(d) = a {
        dependencies.push(d);
    }
    let b = section_dependency(obj, "devDependencies", NpmDependencyKind::Development, catalog_version, bytes);
    if let Some(d) = b {
        dependencies.push(d);
    }
    let c = section_dependency(obj, "optionalDependencies", NpmDependencyKind::Optional, catalog_version, bytes);
    if let Some(d) = c {
        dependencies.push(d);
    }
    let e = section_dependency(obj, "peerDependencies", NpmDependencyKind::Peer, catalog_version, bytes);
    if let Some(d) = e {
        dependencies.push(d);
    }
    proof {
        let s1 = section_declaration(obj@, NpmDependencyKind::Production);
        let s2 = section_declaration(obj@, NpmDependencyKind::Development);
        let s3 = section_declaration(obj@, NpmDependencyKind::Optional);
        let s4 = section_declaration(obj@, NpmDependencyKind::Peer);
        assert(decl == s1 + s2 + s3 + s4);
        assert(dependencies@.len() == decl.len());
        assert forall|i: int| 0 <= i < decl.len() implies npm_dep_is(
            #[trigger] dependencies@[i],
            decl[i].0,
            decl[i].1,
            catalog_version@,
            src,
        ) by {
            let n1 = s1.len() as int;
            let n2 = n1 + s2.len();
            let n3 = n2 + s3.len();
            if i < n1 {
                assert(decl[i] == s1[i]);
            } else if i < n2 {
                assert(decl[i] == s2[i - n1]);
            } else if i < n3 {
                assert(decl[i] == s3[i - n2]);
            } else {
                assert(decl[i] == s4[i - n3]);
            }
        }
    }
    Ok(
        NpmPackage {
            name: json_string(obj, "name"),
            version: json_string(obj, "version"),
            dependencies,
            source: npm_source("package.json", bytes),
        },
    )
}

/// The `lockfileVersion` of a lock document (zero when absent or not an
/// unsigned integer).
pub open spec fn lockfile_version_of(doc: JsonValue) -> u64 {
    match doc {
        JsonValue::Object(o) => match json_lookup(o@, "lockfileVersion"@) {
            Some(JsonValue::Number(Some(n))) => n,
            _ => 0,
        },
        _ => 0,
    }
}

/// The `version` string of the object at `key`, as a list of zero or one.
pub open spec fn version_at(t: Option<Seq<(String, JsonValue)>>, key: Seq<char>) -> Seq<Seq<char>> {
    match t {
        Some(o) => match json_object_at(o, key) {
            Some(p) => match json_string_at(p, "version"@) {
                Some(v) => seq![v],
                None => seq![],
            },
            None => seq![],
        },
        None => seq![],
    }
}

/// The Amari WASM versions a lock document names: under `packages` at
/// `node_modules/<name>`, then under `dependencies` at `<name>`.
pub open spec fn lock_versions_of(doc: JsonValue) -> Seq<Seq<char>> {
    match doc {
        JsonValue::Object(o) => version_at(json_object_at(o@, "packages"@), "node_modules/"@ + amari_wasm())
            + version_at(json_object_at(o@, "dependencies"@), amari_wasm()),
        _ => seq![],
    }
}

/// The versions of locked packages.
pub open spec fn locked_versions(v: Seq<NpmLockedPackage>) -> Seq<Seq<char>> {
    v.map_values(|p: NpmLockedPackage| p.version@)
}

/// What parsing lock bytes gives.
pub open spec fn npm_lock_is(r: Result<NpmLock, NpmInspectionWarning>, b: Seq<u8>) -> bool {
    let path = "package-lock.json"@;
    let src = npm_source_view(path, b);
    if !vstd::utf8::valid_utf8(b) {
        r matches Err(w) && w@ == NpmWarningV::InvalidUtf8Lock(path, spec_sha256_hex(b))
    } else {
        match spec_parse_json(b) {
            Err(e) => r matches Err(w) && w@ == NpmWarningV::MalformedLock(
                path,
                json_reason(e.category),
                Some(e.line as u64),
                Some(e.column as u64),
                spec_sha256_hex(b),
            ),
            Ok(doc) => {
                let v = lockfile_version_of(doc);
                if v != 2 && v != 3 {
                    r matches Err(w) && w@ == NpmWarningV::UnsupportedLockfileVersion(v)
                } else {
                    r matches Ok(l) && l.lockfile_version == v && l.source@ == src && locked_versions(l.packages@)
                        == sorted_dedup(lock_versions_of(doc)) && forall|i: int|
                        0 <= i < l.packages@.len() ==> (#[trigger] l.packages@[i]).package_name@ == amari_wasm()
                            && l.packages@[i].source@ == src
                }
            },
        }
    }
}

/// The `version` string of the object at `key` of an optional object.
fn version_in(t: Option<&Vec<(String, JsonValue)>>, key: &str) -> (r: Option<String>)
    ensures
        match r {
            Some(v) => version_at(
                match t {
                    Some(o) => Some(o@),
                    None => None,
                },
                key@,
            ) == seq![v@],
            None => version_at(
                match t {
                    Some(o) => Some(o@),
                    None => None,
                },
                key@,
            ) == Seq::<Seq<char>>::empty(),
        },
{
    match t {
        Some(o) => match json_object(o, key) {
            Some(p) => json_string(p, "version"),
            None => None,
        },
        None => None,
    }
}

/// Parses `package-lock.json`: its schema version (2 and 3 supported) and
/// the distinct exact versions of the Amari WASM package it locks, sorted.
///
/// # Errors
///
/// Returns the warning for lock bytes that are not UTF-8, not JSON, or of
/// an unsupported schema version.
pub fn parse_lock(bytes: &[u8]) -> (r: Result<NpmLock, NpmInspectionWarning>)
    ensures
        npm_lock_is(r, bytes@),
{
    let path = "package-lock.json";
    if utf8_text(bytes).is_none() {
        return Err(
            NpmInspectionWarning::InvalidUtf8Lock { path: String::from_str(path), content_hash: sha256_hex(bytes) },
        );
    }
    let value = match parse_json(bytes) {
        Ok(v) => v,
        Err(e) => {
            return Err(
                NpmInspectionWarning::MalformedLock {
                    path: String::from_str(path),
                    reason: parse_reason(e.category),
                    line: Some(e.line as u64),
                    column: Some(e.column as u64),
                    content_hash: sha256_hex(bytes),
                },
            );
        },
    };
    let version: u64 = match &value {
        JsonValue::Object(o) => match json_get(o, "lockfileVersion") {
            Some(JsonValue::Number(Some(n))) => *n,
            _ => 0,
        },
        _ => 0,
    };
    if version != 2 && version != 3 {
        return Err(NpmInspectionWarning::UnsupportedLockfileVersion { version });
    }
    let mut found: Vec<String> = Vec::new();
    if let JsonValue::Object(o) = &value {
        if let Some(v) = version_in(json_object(o, "packages"), "node_modules/@justinelliottcobb/amari-wasm") {
            found.push(v);
        }
        if let Some(v) = version_in(json_object(o, "dependencies"), "@justinelliottcobb/amari-wasm") {
            found.push(v);
        }
    }
    proof {
        reveal_strlit("node_modules/");
        reveal_strlit("@justinelliottcobb/amari-wasm");
        reveal_strlit("node_modules/@justinelliottcobb/amari-wasm");
        assert("node_modules/@justinelliottcobb/amari-wasm"@ =~= "node_modules/"@ + amari_wasm());
        assert(views(found@) =~= lock_versions_of(value));
    }
    let versions = sort_dedup_strings(found);
    let source = npm_source(path, bytes);
    let mut packages: Vec<NpmLockedPackage> = Vec::new();
    let mut i: usize = 0;
    while i < versions.len()
        invariant
            i <= versions@.len(),
            source@ == npm_source_view(path@, bytes@),
            packages@.len() == i,
            forall|j: int|
                0 <= j < i ==> (#[trigger] packages@[j]).version@ == versions@[j]@ && packages@[j].package_name@
                    == amari_wasm() && packages@[j].source@ == source@,
        decreases versions@.len() - i,
    {
        packages.push(
            NpmLockedPackage {
                package_name: String::from_str("@justinelliottcobb/amari-wasm"),
                version: versions[i].clone(),
                source: source.clone(),
            },
        );
        i += 1;
    }
    assert(locked_versions(packages@) =~= views(versions@));
    Ok(NpmLock { lockfile_version: version, packages, source })
}

/// The versions of the Amari WASM entries of locked packages, in order.
pub open spec fn amari_locked_versions(v: Seq<NpmLockedPackage>) -> Seq<Seq<char>>
    decreases v.len(),
{
    if v.len() == 0 {
        seq![]
    } else {
        amari_locked_versions(v.drop_last()) + if v.last().package_name@ == amari_wasm() {
            seq![v.last().version@]
        } else {
            seq![]
        }
    }
}

/// The distinct Amari WASM versions a lock holds, sorted.
pub open spec fn lock_resolution(lock: NpmLock) -> Seq<Seq<char>> {
    sorted_dedup(amari_locked_versions(lock.packages@))
}

/// The reason an exactly resolved declaration gives.
pub open spec fn resolved_reason(v: Seq<char>, cv: Seq<char>) -> Seq<char> {
    if v == cv {
        "resolved npm version "@ + v + " matches the embedded catalog"@
    } else {
        "resolved npm version "@ + v + " does not match catalog "@ + cv
    }
}

/// Whether `z` is the declaration `a` resolved to the exact version `v`.
pub open spec fn npm_dep_resolved(
    a: NpmDependencyEvidence,
    z: NpmDependencyEvidence,
    v: Seq<char>,
    src: (Seq<char>, Option<u64>, Seq<char>, u64),
    cv: Seq<char>,
) -> bool {
    &&& z.package_name == a.package_name
    &&& z.kind == a.kind
    &&& z.declared_version == a.declared_version
    &&& z.manifest_source == a.manifest_source
    &&& z.resolved_version matches Some(x) && x@ == v
    &&& z.lock_source matches Some(s) && s@ == src
    &&& z.compatibility.status@ == if v == cv {
        "applicable"@
    } else {
        "unknown_version"@
    }
    &&& views(z.compatibility.reasons@) == seq![resolved_reason(v, cv)]
}

/// The distinct Amari WASM versions of a lock, sorted.
fn amari_versions(lock: &NpmLock) -> (r: Vec<String>)
    ensures
        views(r@) == lock_resolution(*lock),
{
    let mut found: Vec<String> = Vec::new();
    let mut i: usize = 0;
    while i < lock.packages.len()
        invariant
            i <= lock.packages@.len(),
            views(found@) == amari_locked_versions(lock.packages@.take(i as int)),
        decreases lock.packages@.len() - i,
    {
        assert(lock.packages@.take(i + 1).drop_last() =~= lock.packages@.take(i as int));
        let ghost prev = found@;
        if str_eq(lock.packages[i].package_name.as_str(), "@justinelliottcobb/amari-wasm") {
            found.push(lock.packages[i].version.clone());
            assert(views(found@) =~= views(prev) + seq![lock.packages@[i as int].version@]);
        } else {
            assert(views(found@) =~= views(prev) + Seq::<Seq<char>>::empty());
        }
        i += 1;
    }
    assert(lock.packages@.take(lock.packages@.len() as int) =~= lock.packages@);
    sort_dedup_strings(found)
}

/// The compatibility of a declaration resolved to `version`.
fn resolved_compatibility(version: &str, catalog_version: &str) -> (r: Compatibility)
    ensures
        r.status@ == if version@ == catalog_version@ {
            "applicable"@
        } else {
            "unknown_version"@
        },
        views(r.reasons@) == seq![resolved_reason(version@, catalog_version@)],
{
    let mut m = String::from_str("resolved npm version ");
    m.append(version);
    let status = if str_eq(version, catalog_version) {
        m.append(" matches the embedded catalog");
        String::from_str("applicable")
    } else {
        m.append(" does not match catalog ");
        m.append(catalog_version);
        String::from_str("unknown_version")
    };
    let mut reasons: Vec<String> = Vec::new();
    reasons.push(m);
    assert(views(reasons@) =~= seq![resolved_reason(version@, catalog_version@)]);
    Compatibility { status, reasons }
}

/// Whether `z` and `w1` are the package and warnings after resolving `a`
/// (with warnings `w0`) against a lock.
pub open spec fn npm_resolution(
    a: NpmPackage,
    z: NpmPackage,
    w0: Seq<NpmWarningV>,
    w1: Seq<NpmWarningV>,
    lock: NpmLock,
    cv: Seq<char>,
) -> bool {
    let vs = lock_resolution(lock);
    if vs.len() > 1 {
        z == a && w1 == w0.push(NpmWarningV::AmbiguousLockResolution(amari_wasm(), vs.len() as usize))
    } else if vs.len() == 0 {
        z == a && w1 == w0
    } else {
        &&& w1 == w0
        &&& z.name == a.name
        &&& z.version == a.version
        &&& z.source == a.source
        &&& z.dependencies@.len() == a.dependencies@.len()
        &&& forall|i: int|
            0 <= i < a.dependencies@.len() ==> npm_dep_resolved(
                a.dependencies@[i],
                #[trigger] z.dependencies@[i],
                vs[0],
                lock.source@,
                cv,
            )
    }
}

/// Resolves the package's declarations against the lock: with a single
/// distinct Amari WASM version each declaration is resolved to it; with
/// several, an ambiguity warning is recorded and nothing is resolved; with
/// none, nothing changes.
pub fn resolve_dependencies(
    package: &mut NpmPackage,
    lock: &NpmLock,
    catalog_version: &str,
    warnings: &mut Vec<NpmInspectionWarning>,
)
    ensures
        npm_resolution(
            *old(package),
            *final(package),
            npm_warning_views(old(warnings)@),
            npm_warning_views(final(warnings)@),
            *lock,
            catalog_version@,
        ),
{
    let versions = amari_versions(lock);
    if versions.len() > 1 {
        let ghost w0 = warnings@;
        warnings.push(
            NpmInspectionWarning::AmbiguousLockResolution {
                package_name: String::from_str("@justinelliottcobb/amari-wasm"),
                version_count: versions.len(),
            },
        );
        assert(npm_warning_views(warnings@) =~= npm_warning_views(w0).push(
            NpmWarningV::AmbiguousLockResolution(amari_wasm(), lock_resolution(*lock).len() as usize),
        ));
        return;
    }
    if versions.len() == 0 {
        return;
    }
    let version = &versions[0];
    let mut pending: Vec<NpmDependencyEvidence> = Vec::new();
    std::mem::swap(&mut package.dependencies, &mut pending);
    let ghost orig = pending@;
    let mut out: Vec<NpmDependencyEvidence> = Vec::new();
    while pending.len() > 0
        invariant
            orig == old(package).dependencies@,
            out@.len() + pending@.len() == orig.len(),
            pending@ == orig.skip(out@.len() as int),
            views(versions@) == lock_resolution(*lock),
            versions@.len() == 1,
            *version == versions@[0],
            forall|q: int|
                0 <= q < out@.len() ==> npm_dep_resolved(
                    orig[q],
                    #[trigger] out@[q],
                    lock_resolution(*lock)[0],
                    lock.source@,
                    catalog_version@,
                ),
        decreases pending@.len(),
    {
        let dep = pending.remove(0);
        assert(dep == orig[out@.len() as int]);
        let NpmDependencyEvidence {
            package_name,
            kind,
            declared_version,
            resolved_version: _,
            compatibility: _,
            manifest_source,
            lock_source: _,
        } = dep;
        out.push(
            NpmDependencyEvidence {
                package_name,
                kind,
                declared_version,
                resolved_version: Some(version.clone()),
                compatibility: resolved_compatibility(version.as_str(), catalog_version),
                manifest_source,
                lock_source: Some(lock.source.clone()),
            },
        );
        assert(pending@ =~= orig.skip(out@.len() as int));
    }
    package.dependencies = out;
}

// ---------------------------------------------------------------------------
// Inspection state
// ---------------------------------------------------------------------------

/// Outcome of opening and reading an npm input.
pub enum NpmRead {
    /// The file was read within limits.
    Accepted(Vec<u8>),
    /// The file does not exist.
    Missing,
    /// The path is a symlink, or was replaced while opening.
    Symlink,
    /// The path is not a regular file.
    Unsupported,
    /// The file could not be opened.
    OpenFailed,
    /// The file exceeds the per-file byte limit.
    PerFileExceeded,
    /// Accepting the file would exceed the aggregate byte limit.
    AggregateExceeded,
    /// The file could not be read.
    ReadFailed,
}

/// The checks made before `package.json` is opened: a traversal depth of at
/// least one, room for one file, and wall-clock time left.
///
/// # Errors
///
/// Returns [`DiscoveryError::LimitExceeded`] naming the first limit that
/// leaves no room for `package.json`.
pub fn npm_preflight(limits: &InspectionLimits, elapsed_millis: u64) -> (r: DiscoveryResult<()>)
    ensures
        limits.max_traversal_depth < 1 ==> (r matches Err(DiscoveryError::LimitExceeded(m)) && m@
            == "package.json exceeds traversal depth limit"@),
        limits.max_traversal_depth >= 1 && limits.max_inspection_files == 0 ==> (r matches Err(
            DiscoveryError::LimitExceeded(m),
        ) && m@ == "package.json exceeds file-count limit"@),
        limits.max_traversal_depth >= 1 && limits.max_inspection_files > 0 && elapsed_millis
            >= limits.max_inspection_wall_millis ==> (r matches Err(DiscoveryError::LimitExceeded(m)) && m@
            == "package.json exceeds wall-clock limit"@),
        limits.max_traversal_depth >= 1 && limits.max_inspection_files > 0 && elapsed_millis
            < limits.max_inspection_wall_millis ==> r is Ok,
{
    if limits.max_traversal_depth < 1 {
        return Err(DiscoveryError::LimitExceeded(String::from_str("package.json exceeds traversal depth limit")));
    }
    if limits.max_inspection_files == 0 {
        return Err(DiscoveryError::LimitExceeded(String::from_str("package.json exceeds file-count limit")));
    }
    if elapsed_millis >= limits.max_inspection_wall_millis {
        return Err(DiscoveryError::LimitExceeded(String::from_str("package.json exceeds wall-clock limit")));
    }
    Ok(())
}

/// The state of an npm inspection between reads.
pub struct NpmProject {
    /// The catalog version declarations are compared against.
    pub catalog_version: String,
    /// The parsed `package.json`.
    pub package: NpmPackage,
    /// The parsed supported lockfile, when read.
    pub lock: Option<NpmLock>,
    /// Non-fatal warnings so far.
    pub warnings: Vec<NpmInspectionWarning>,
    /// Accepted inputs.
    pub provenance: ProvenanceAccumulator,
    /// The completion state so far.
    pub state: SnapshotState,
}

/// The message `package.json` fails with for a read that was not accepted.
pub open spec fn package_read_error(o: NpmRead) -> Seq<char> {
    match o {
        NpmRead::Missing => "package.json not found"@,
        NpmRead::Symlink => "package.json is a symlink and cannot be inspected"@,
        NpmRead::Unsupported => "package.json is not a regular file"@,
        NpmRead::OpenFailed => "cannot open package.json"@,
        NpmRead::PerFileExceeded => "package.json exceeds per-file byte limit"@,
        NpmRead::AggregateExceeded => "package.json exceeds aggregate byte limit"@,
        _ => "cannot read package.json"@,
    }
}

/// Whether a read that was not accepted fails as a limit.
pub open spec fn is_limit_read(o: NpmRead) -> bool {
    o is PerFileExceeded || o is AggregateExceeded
}

/// The warning, and the limit that ends inspection if any, for a lockfile
/// read that was not accepted.
pub open spec fn lock_read_outcome(o: NpmRead, limits: InspectionLimits) -> (NpmWarningV, Option<InspectionLimit>) {
    match o {
        NpmRead::Missing => (NpmWarningV::MissingLock("package-lock.json"@), None),
        NpmRead::Symlink => (NpmWarningV::SymlinkedLock("package-lock.json"@), None),
        NpmRead::Unsupported => (NpmWarningV::UnsupportedLockFile("package-lock.json"@), None),
        NpmRead::PerFileExceeded => {
            let l = InspectionLimit::PerFileBytes {
                max: limits.max_per_file_bytes,
                observed: sat_add(limits.max_per_file_bytes, 1),
            };
            (NpmWarningV::LimitExceeded(l), Some(l))
        },
        NpmRead::AggregateExceeded => {
            let l = InspectionLimit::TotalBytes {
                max: limits.max_inspection_bytes,
                observed: sat_add(limits.max_inspection_bytes, 1),
            };
            (NpmWarningV::LimitExceeded(l), Some(l))
        },
        _ => (NpmWarningV::ReadFailure("package-lock.json"@), None),
    }
}

/// The state after a lockfile read that was not accepted.
pub open spec fn lock_read_state(o: NpmRead, limits: InspectionLimits, st: SnapshotState) -> SnapshotState {
    match lock_read_outcome(o, limits).1 {
        Some(l) => SnapshotState::LimitExceeded { limit: l },
        None => st,
    }
}

impl NpmProject {
    /// Starts an inspection from the read of `package.json`, which must be
    /// accepted and parse.
    ///
    /// # Errors
    ///
    /// Returns [`DiscoveryError::LimitExceeded`] when `package.json` exceeds
    /// a byte limit, and [`DiscoveryError::InspectionFailure`] when it is
    /// missing, a symlink, not a regular file, unreadable, or does not parse
    /// as a JSON object.
    pub fn from_package(read: NpmRead, catalog_version: &str) -> (r: DiscoveryResult<NpmProject>)
        ensures
            !(read is Accepted) && is_limit_read(read) ==> (r matches Err(DiscoveryError::LimitExceeded(m)) && m@
                == package_read_error(read)),
            !(read is Accepted) && !is_limit_read(read) ==> (r matches Err(DiscoveryError::InspectionFailure(m))
                && m@ == package_read_error(read)),
            read matches NpmRead::Accepted(b) ==> match spec_parse_json(b@) {
                Err(e) => r matches Err(DiscoveryError::InspectionFailure(m)) && m@ == package_error_message(e),
                Ok(JsonValue::Object(o)) => r matches Ok(p) && npm_package_is(p.package, o@, b@, catalog_version@)
                    && p.catalog_version@ == catalog_version@ && p.lock is None && p.warnings@.len() == 0
                    && p.state == SnapshotState::Complete && p.provenance.spec_entries() == seq![
                    ("package.json"@, b@),
                ] && p.provenance.spec_file_count() == 1 && p.provenance.spec_total_bytes() == b@.len(),
                Ok(_) => r matches Err(DiscoveryError::InspectionFailure(m)) && m@
                    == "package.json root is not an object"@,
            },
    {
        let bytes = match read {
            NpmRead::Accepted(b) => b,
            NpmRead::Missing => {
                return Err(DiscoveryError::InspectionFailure(String::from_str("package.json not found")));
            },
            NpmRead::Symlink => {
                return Err(
                    DiscoveryError::InspectionFailure(
                        String::from_str("package.json is a symlink and cannot be inspected"),
                    ),
                );
            },
            NpmRead::Unsupported => {
                return Err(DiscoveryError::InspectionFailure(String::from_str("package.json is not a regular file")));
            },
            NpmRead::OpenFailed => {
                return Err(DiscoveryError::InspectionFailure(String::from_str("cannot open package.json")));
            },
            NpmRead::PerFileExceeded => {
                return Err(DiscoveryError::LimitExceeded(String::from_str("package.json exceeds per-file byte limit")));
            },
            NpmRead::AggregateExceeded => {
                return Err(
                    DiscoveryError::LimitExceeded(String::from_str("package.json exceeds aggregate byte limit")),
                );
            },
            NpmRead::ReadFailed => {
                return Err(DiscoveryError::InspectionFailure(String::from_str("cannot read package.json")));
            },
        };
        let package = match parse_package(bytes.as_slice(), catalog_version) {
            Ok(p) => p,
            Err(e) => {
                return Err(e);
            },
        };
        let n = bytes.len();
        assert(n <= u64::MAX);
        let mut provenance = ProvenanceAccumulator::new();
        provenance.accept("package.json", bytes.as_slice());
        assert(provenance.spec_entries() =~= seq![("package.json"@, bytes@)]);
        Ok(
            NpmProject {
                catalog_version: String::from_str(catalog_version),
                package,
                lock: None,
                warnings: Vec::new(),
                provenance,
                state: SnapshotState::Complete,
            },
        )
    }

    /// The wall-clock check: once the elapsed time reaches the budget, the
    /// wall-clock limit becomes a warning and the state. Returns whether it
    /// tripped.
    pub fn wall_clock_gate(&mut self, elapsed_millis: u64, limits: &InspectionLimits) -> (stop: bool)
        ensures
            stop == (elapsed_millis >= limits.max_inspection_wall_millis),
            final(self).catalog_version == old(self).catalog_version,
            final(self).package == old(self).package,
            final(self).lock == old(self).lock,
            final(self).provenance == old(self).provenance,
            stop ==> final(self).state == (SnapshotState::LimitExceeded {
                limit: InspectionLimit::WallClock {
                    max_millis: limits.max_inspection_wall_millis,
                    observed_millis: elapsed_millis,
                },
            }) && npm_warning_views(final(self).warnings@) == npm_warning_views(old(self).warnings@).push(
                NpmWarningV::LimitExceeded(
                    InspectionLimit::WallClock {
                        max_millis: limits.max_inspection_wall_millis,
                        observed_millis: elapsed_millis,
                    },
                ),
            ),
            !stop ==> final(self).state == old(self).state && final(self).warnings == old(self).warnings,
    {
        if elapsed_millis >= limits.max_inspection_wall_millis {
            let limit = InspectionLimit::WallClock {
                max_millis: limits.max_inspection_wall_millis,
                observed_millis: elapsed_millis,
            };
            let ghost w0 = self.warnings@;
            self.warnings.push(NpmInspectionWarning::LimitExceeded { limit });
            assert(npm_warning_views(self.warnings@) =~= npm_warning_views(w0).push(NpmWarningV::LimitExceeded(limit)));
            self.state = SnapshotState::LimitExceeded { limit };
            true
        } else {
            false
        }
    }

    /// The file-count check made before reading the lockfile: it is the
    /// second input, so a limit below two stops inspection with the
    /// file-count limit as warning and state. Returns whether it stopped.
    pub fn file_gate(&mut self, limits: &InspectionLimits) -> (stop: bool)
        ensures
            stop == (limits.max_inspection_files < 2),
            final(self).catalog_version == old(self).catalog_version,
            final(self).package == old(self).package,
            final(self).lock == old(self).lock,
            final(self).provenance == old(self).provenance,
            stop ==> final(self).state == (SnapshotState::LimitExceeded {
                limit: InspectionLimit::FileCount { max: limits.max_inspection_files, observed: 2 },
            }) && npm_warning_views(final(self).warnings@) == npm_warning_views(old(self).warnings@).push(
                NpmWarningV::LimitExceeded(
                    (InspectionLimit::FileCount { max: limits.max_inspection_files, observed: 2 }),
                ),
            ),
            !stop ==> final(self).state == old(self).state && final(self).warnings == old(self).warnings,
    {
        if limits.max_inspection_files < 2 {
            let limit = InspectionLimit::FileCount { max: limits.max_inspection_files, observed: 2 };
            let ghost w0 = self.warnings@;
            self.warnings.push(NpmInspectionWarning::LimitExceeded { limit });
            assert(npm_warning_views(self.warnings@) =~= npm_warning_views(w0).push(NpmWarningV::LimitExceeded(limit)));
            self.state = SnapshotState::LimitExceeded { limit };
            true
        } else {
            false
        }
    }

    /// Takes in the read of `package-lock.json`. An accepted lockfile is
    /// recorded and parsed; a supported one resolves the declarations, an
    /// unsupported or malformed one becomes a warning. A lockfile that was
    /// not accepted becomes a warning, and a byte limit also the state.
    /// Returns whether the lockfile was accepted (inspection then ends with
    /// a last wall-clock check).
    pub fn accept_lock(&mut self, read: NpmRead, limits: &InspectionLimits) -> (accepted: bool)
        ensures
            accepted == (read is Accepted),
            final(self).catalog_version == old(self).catalog_version,
            !(read is Accepted) ==> ({
                &&& final(self).package == old(self).package
                &&& final(self).lock == old(self).lock
                &&& final(self).provenance == old(self).provenance
                &&& npm_warning_views(final(self).warnings@) == npm_warning_views(old(self).warnings@).push(
                    lock_read_outcome(read, *limits).0,
                )
                &&& final(self).state == lock_read_state(read, *limits, old(self).state)
            }),
            read matches NpmRead::Accepted(b) ==> ({
                &&& final(self).state == old(self).state
                &&& final(self).provenance.spec_entries() == old(self).provenance.spec_entries().push(
                    ("package-lock.json"@, b@),
                )
                &&& final(self).provenance.spec_file_count() == sat_add(old(self).provenance.spec_file_count(), 1)
                &&& final(self).provenance.spec_total_bytes() == sat_add(
                    old(self).provenance.spec_total_bytes(),
                    b@.len() as int,
                )
                &&& exists|lr: Result<NpmLock, NpmInspectionWarning>|
                    #[trigger] npm_lock_is(lr, b@) && match lr {
                        Ok(l) => final(self).lock == Some(l) && npm_resolution(
                            old(self).package,
                            final(self).package,
                            npm_warning_views(old(self).warnings@),
                            npm_warning_views(final(self).warnings@),
                            l,
                            old(self).catalog_version@,
                        ),
                        Err(w) => final(self).lock == old(self).lock && final(self).package == old(self).package
                            && npm_warning_views(final(self).warnings@) == npm_warning_views(
                            old(self).warnings@,
                        ).push(w@),
                    }
            }),
    {
        let ghost w0 = self.warnings@;
        let bytes = match read {
            NpmRead::Accepted(b) => b,
            NpmRead::Missing => {
                self.warnings.push(NpmInspectionWarning::MissingLock { path: String::from_str("package-lock.json") });
                assert(npm_warning_views(self.warnings@) =~= npm_warning_views(w0).push(self.warnings@.last()@));
                return false;
            },
            NpmRead::Symlink => {
                self.warnings.push(NpmInspectionWarning::SymlinkedLock { path: String::from_str("package-lock.json") });
                assert(npm_warning_views(self.warnings@) =~= npm_warning_views(w0).push(self.warnings@.last()@));
                return false;
            },
            NpmRead::Unsupported => {
                self.warnings.push(
                    NpmInspectionWarning::UnsupportedLockFile { path: String::from_str("package-lock.json") },
                );
                assert(npm_warning_views(self.warnings@) =~= npm_warning_views(w0).push(self.warnings@.last()@));
                return false;
            },
            NpmRead::PerFileExceeded => {
                let limit = InspectionLimit::PerFileBytes {
                    max: limits.max_per_file_bytes,
                    observed: limits.max_per_file_bytes.saturating_add(1),
                };
                self.warnings.push(NpmInspectionWarning::LimitExceeded { limit });
                assert(npm_warning_views(self.warnings@) =~= npm_warning_views(w0).push(self.warnings@.last()@));
                self.state = SnapshotState::LimitExceeded { limit };
                return false;
            },
            NpmRead::AggregateExceeded => {
                let limit = InspectionLimit::TotalBytes {
                    max: limits.max_inspection_bytes,
                    observed: limits.max_inspection_bytes.saturating_add(1),
                };
                self.warnings.push(NpmInspectionWarning::LimitExceeded { limit });
                assert(npm_warning_views(self.warnings@) =~= npm_warning_views(w0).push(self.warnings@.last()@));
                self.state = SnapshotState::LimitExceeded { limit };
                return false;
            },
            _ => {
                self.warnings.push(NpmInspectionWarning::ReadFailure { path: String::from_str("package-lock.json") });
                assert(npm_warning_views(self.warnings@) =~= npm_warning_views(w0).push(self.warnings@.last()@));
                return false;
            },
        };
        self.provenance.accept("package-lock.json", bytes.as_slice());
        let parsed = parse_lock(bytes.as_slice());
        let ghost pr = parsed;
        match parsed {
            Ok(lock) => {
                resolve_dependencies(&mut self.package, &lock, self.catalog_version.as_str(), &mut self.warnings);
                self.lock = Some(lock);
            },
            Err(w) => {
                self.warnings.push(w);
                assert(npm_warning_views(self.warnings@) =~= npm_warning_views(w0).push(self.warnings@.last()@));
            },
        }
        assert(npm_lock_is(pr, bytes@));
        true
    }

    /// Assembles the inspection; the input hash frames every accepted file
    /// ordered by path.
    pub fn finish(self) -> (r: NpmInspection)
        ensures
            r.package == self.package,
            r.lock == self.lock,
            r.catalog_version == self.catalog_version,
            r.warnings == self.warnings,
            r.input_hash@ == framed_hash_of(self.provenance.spec_entries()),
            r.state == self.state,
            r.inspected_file_count == self.provenance.spec_file_count(),
            r.total_bytes == self.provenance.spec_total_bytes(),
    {
        let input_hash = self.provenance.compute_hash();
        let inspected_file_count = self.provenance.accepted_files();
        let total_bytes = self.provenance.accepted_bytes();
        NpmInspection {
            package: self.package,
            lock: self.lock,
            catalog_version: self.catalog_version,
            warnings: self.warnings,
            input_hash,
            state: self.state,
            inspected_file_count,
            total_bytes,
        }
    }
}

} // verus!
