//! Public types for Cargo dependency inspection.

use vstd::prelude::*;

use crate::inspect::snapshot::{InspectionLimit, SnapshotState};
use crate::protocol::Compatibility;
use crate::text::chars_of;

verus! {

/// Cargo evidence for a project root and its workspace members.
#[derive(Debug, PartialEq, Eq)]
pub struct CargoInspection {
    /// The root package.
    pub root_package: CargoPackage,
    /// Workspace member packages.
    pub workspace_members: Vec<CargoPackage>,
    /// Parsed lockfile, when present.
    pub lock: Option<CargoLock>,
    /// Workspace metadata, when present.
    pub workspace_meta: Option<WorkspaceMeta>,
    /// Non-fatal warnings.
    pub warnings: Vec<CargoInspectionWarning>,
    /// Framed hash over accepted inputs.
    pub input_hash: String,
    /// Completion state.
    pub state: SnapshotState,
    /// Number of accepted inputs.
    pub inspected_file_count: u64,
    /// Total accepted bytes.
    pub total_bytes: u64,
}

/// One Cargo package.
#[derive(Debug, PartialEq, Eq)]
pub struct CargoPackage {
    /// Package name.
    pub name: String,
    /// Package version.
    pub version: String,
    /// Project-relative manifest path.
    pub manifest_path: String,
    /// Amari dependencies.
    pub dependencies: Vec<AmariDependencyEvidence>,
    /// Declared benches.
    pub benches: Vec<CargoBench>,
    /// `package.links`, when declared.
    pub native_link: Option<NativeLink>,
    /// Fields inherited from the workspace.
    pub inherited_metadata: Vec<String>,
    /// Native-build helper dependencies.
    pub system_dependencies: Vec<SystemDependencySignal>,
    /// Every dependency, Amari or not.
    pub dependency_records: Vec<CargoDependencyRecord>,
    /// `package.autobenches`, when declared.
    pub autobenches: Option<bool>,
}

/// A lightweight record of any dependency.
#[derive(Debug, PartialEq, Eq)]
pub struct CargoDependencyRecord {
    /// Dependency key.
    pub alias: String,
    /// Package name.
    pub package: String,
    /// Dependency table kind.
    pub kind: DependencyKind,
    /// Target selector, when target-specific.
    pub target: Option<String>,
    /// Manifest source.
    pub source: ManifestSource,
}

/// Evidence for one Amari dependency.
#[derive(Debug, PartialEq, Eq)]
pub struct AmariDependencyEvidence {
    /// Dependency key.
    pub alias: String,
    /// Package name.
    pub package_name: String,
    /// Dependency table kind.
    pub kind: DependencyKind,
    /// Declared version requirement.
    pub declared_version: String,
    /// Lock-resolved version.
    pub resolved_version: Option<String>,
    /// Compatibility with the embedded catalog.
    pub compatibility: Compatibility,
    /// Target selector.
    pub target: Option<String>,
    /// Enabled features.
    pub features: Vec<String>,
    /// Whether default features are enabled.
    pub default_features: bool,
    /// Whether the dependency is optional.
    pub optional: bool,
    /// Manifest source.
    pub manifest_source: ManifestSource,
    /// Lockfile source.
    pub lock_source: Option<ManifestSource>,
}

/// The table a dependency is declared in.
#[derive(Clone, Copy, Debug, PartialEq, Eq, Structural)]
pub enum DependencyKind {
    /// `[dependencies]`.
    Normal,
    /// `[dev-dependencies]`.
    Dev,
    /// `[build-dependencies]`.
    Build,
}

impl DependencyKind {
    /// Stable rank: Normal < Dev < Build.
    pub open spec fn spec_rank(self) -> u8 {
        match self {
            DependencyKind::Normal => 0,
            DependencyKind::Dev => 1,
            DependencyKind::Build => 2,
        }
    }

    /// Stable rank: Normal < Dev < Build.
    pub fn rank(self) -> (r: u8)
        ensures
            r == self.spec_rank(),
    {
        match self {
            DependencyKind::Normal => 0,
            DependencyKind::Dev => 1,
            DependencyKind::Build => 2,
        }
    }
}

/// A declared `[[bench]]` target.
#[derive(Debug, PartialEq, Eq)]
pub struct CargoBench {
    /// Bench name.
    pub name: String,
    /// Package-relative path.
    pub path: String,
    /// Whether the libtest harness is used.
    pub harness: bool,
    /// Required features.
    pub required_features: Vec<String>,
    /// Manifest source.
    pub manifest_source: ManifestSource,
}

/// `package.links` evidence.
#[derive(Debug, PartialEq, Eq)]
pub struct NativeLink {
    /// The links key.
    pub links_key: String,
    /// Manifest source.
    pub manifest_source: ManifestSource,
}

/// Native-build helper crate kinds.
#[derive(Clone, Copy, Debug, PartialEq, Eq, Structural)]
pub enum SystemDependencyKind {
    /// `pkg-config`.
    PkgConfig,
    /// `cc`.
    Cc,
    /// `bindgen`.
    Bindgen,
    /// `cmake`.
    Cmake,
    /// `vcpkg`.
    Vcpkg,
    /// `system-deps`.
    SystemDeps,
}

/// A dependency on a native-build helper crate.
#[derive(Debug, PartialEq, Eq)]
pub struct SystemDependencySignal {
    /// Dependency key.
    pub alias: String,
    /// Package name.
    pub package: String,
    /// Dependency table kind.
    pub dependency_kind: DependencyKind,
    /// Helper kind.
    pub system_kind: SystemDependencyKind,
    /// Target selector.
    pub target: Option<String>,
    /// Manifest source.
    pub manifest_source: ManifestSource,
}

/// The helper kind named by a package name, if any.
pub open spec fn spec_system_dep_kind(name: Seq<char>) -> Option<SystemDependencyKind> {
    if name == "pkg-config"@ || name == "pkg_config"@ {
        Some(SystemDependencyKind::PkgConfig)
    } else if name == "cc"@ {
        Some(SystemDependencyKind::Cc)
    } else if name == "cmake"@ {
        Some(SystemDependencyKind::Cmake)
    } else if name == "bindgen"@ {
        Some(SystemDependencyKind::Bindgen)
    } else if name == "vcpkg"@ {
        Some(SystemDependencyKind::Vcpkg)
    } else if name == "system-deps"@ {
        Some(SystemDependencyKind::SystemDeps)
    } else {
        None
    }
}

/// Classifies a dependency package name as a native-build helper.
pub fn system_dep_kind(name: &str) -> (r: Option<SystemDependencyKind>)
    ensures
        r == spec_system_dep_kind(name@),
{
    let n = chars_of(name);
    let names: [&str; 7] = ["pkg-config", "pkg_config", "cc", "cmake", "bindgen", "vcpkg", "system-deps"];
    let kinds: [SystemDependencyKind; 7] = [
        SystemDependencyKind::PkgConfig,
        SystemDependencyKind::PkgConfig,
        SystemDependencyKind::Cc,
        SystemDependencyKind::Cmake,
        SystemDependencyKind::Bindgen,
        SystemDependencyKind::Vcpkg,
        SystemDependencyKind::SystemDeps,
    ];
    let mut k: usize = 0;
    while k < 7
        invariant
            k <= 7,
            n@ == name@,
            names@ == seq!["pkg-config", "pkg_config", "cc", "cmake", "bindgen", "vcpkg", "system-deps"],
            kinds@ == seq![
                SystemDependencyKind::PkgConfig,
                SystemDependencyKind::PkgConfig,
                SystemDependencyKind::Cc,
                SystemDependencyKind::Cmake,
                SystemDependencyKind::Bindgen,
                SystemDependencyKind::Vcpkg,
                SystemDependencyKind::SystemDeps,
            ],
            forall|j: int| 0 <= j < k ==> name@ != (#[trigger] names@[j])@,
        decreases 7 - k,
    {
        let cand = chars_of(names[k]);
        if crate::text::chars_eq(n.as_slice(), cand.as_slice()) {
            return Some(kinds[k]);
        }
        k += 1;
    }
    None
}

/// Workspace-level metadata.
#[derive(Debug, PartialEq, Eq)]
pub struct WorkspaceMeta {
    /// Member globs.
    pub members: Vec<String>,
    /// `[workspace.dependencies]` bases, by key in key order.
    pub dependency_bases: Vec<(String, WorkspaceDependencyBase)>,
    /// `[workspace.package]` fields (strings, or the TOML text of arrays and
    /// tables), by key in key order.
    pub package_fields: Vec<(String, String)>,
}

/// A `[workspace.dependencies]` entry.
#[derive(Debug, PartialEq, Eq)]
pub struct WorkspaceDependencyBase {
    /// Renamed package.
    pub package: Option<String>,
    /// Version requirement.
    pub version: Option<String>,
    /// Path source.
    pub path: Option<String>,
    /// Git source.
    pub git: Option<String>,
    /// Features.
    pub features: Vec<String>,
    /// Default features flag.
    pub default_features: Option<bool>,
    /// Optional flag.
    pub optional: bool,
}

/// A parsed `Cargo.lock`.
#[derive(Debug, PartialEq, Eq)]
pub struct CargoLock {
    /// Project-relative path.
    pub path: String,
    /// Locked packages.
    pub packages: Vec<LockedPackage>,
    /// Lockfile source.
    pub source: ManifestSource,
}

/// One locked package.
#[derive(Debug, PartialEq, Eq)]
pub struct LockedPackage {
    /// Name.
    pub name: String,
    /// Version.
    pub version: String,
    /// Checksum.
    pub checksum: Option<String>,
    /// Source.
    pub source: Option<String>,
}

/// Source of a manifest or lockfile fact.
#[derive(Debug, PartialEq, Eq, PartialOrd, Ord)]
pub struct ManifestSource {
    /// Project-relative path.
    pub path: String,
    /// Line, when known.
    pub line: Option<usize>,
    /// Hex SHA-256 of the file.
    pub content_hash: String,
    /// File size in bytes.
    pub byte_count: u64,
}

impl View for ManifestSource {
    type V = (Seq<char>, Option<usize>, Seq<char>, u64);

    open spec fn view(&self) -> Self::V {
        (self.path@, self.line, self.content_hash@, self.byte_count)
    }
}

impl Clone for ManifestSource {
    fn clone(&self) -> (r: Self)
        ensures
            r@ == self@,
    {
        ManifestSource {
            path: self.path.clone(),
            line: self.line,
            content_hash: self.content_hash.clone(),
            byte_count: self.byte_count,
        }
    }
}

/// Non-fatal Cargo inspection warnings.
#[derive(Debug, PartialEq, Eq)]
pub enum CargoInspectionWarning {
    /// A manifest was missing.
    MissingManifest {
        /// Path.
        path: String,
    },
    /// The lockfile was missing.
    MissingLock {
        /// Path.
        path: String,
    },
    /// A manifest was malformed.
    MalformedManifest {
        /// Path.
        path: String,
        /// Stable reason.
        reason: String,
        /// Line.
        line: Option<usize>,
        /// Column.
        column: Option<usize>,
    },
    /// The lockfile was malformed.
    MalformedLock {
        /// Path.
        path: String,
        /// Stable reason.
        reason: String,
        /// Line.
        line: Option<usize>,
        /// Column.
        column: Option<usize>,
    },
    /// A manifest was a symlink.
    SymlinkedManifest {
        /// Path.
        path: String,
    },
    /// A manifest escaped the root.
    EscapingManifest {
        /// Path.
        path: String,
    },
    /// Several locked versions matched.
    AmbiguousLockResolution {
        /// Package.
        package: String,
        /// Candidate versions.
        versions: Vec<String>,
    },
    /// An inherited workspace dependency had no base.
    InheritedBaseMissing {
        /// Member.
        member: String,
        /// Dependency.
        dep: String,
    },
    /// An unsupported requirement form.
    UnsupportedRequirement {
        /// Package.
        package: String,
        /// Dependency.
        dep: String,
        /// Reason.
        reason: String,
    },
    /// A limit was reached.
    LimitExceeded {
        /// The limit.
        limit: InspectionLimit,
    },
    /// An illegal member path.
    IllegalMemberPath {
        /// Member.
        member: String,
    },
    /// A nested workspace root.
    NestedWorkspaceRoot {
        /// Path.
        path: String,
    },
    /// An inherited field was missing.
    WorkspaceFieldNotFound {
        /// Field.
        field: String,
        /// Package.
        package: String,
    },
    /// `workspace = false` was rejected.
    WorkspaceFalseRejected {
        /// Dependency.
        dep: String,
        /// Package.
        package: String,
    },
    /// An override of an inherited dependency was rejected.
    WorkspaceOverrideRejected {
        /// Dependency.
        dep: String,
        /// Package.
        package: String,
        /// Key.
        key: String,
    },
    /// An invalid bench path.
    InvalidBenchPath {
        /// Bench name.
        bench_name: String,
        /// Package.
        package: String,
    },
}

/// View of a Cargo inspection warning.
pub enum CargoWarningV {
    /// Missing manifest.
    MissingManifest(Seq<char>),
    /// Missing lockfile.
    MissingLock(Seq<char>),
    /// Malformed manifest: path, reason, line, column.
    MalformedManifest(Seq<char>, Seq<char>, Option<usize>, Option<usize>),
    /// Malformed lockfile: path, reason, line, column.
    MalformedLock(Seq<char>, Seq<char>, Option<usize>, Option<usize>),
    /// Symlinked manifest.
    SymlinkedManifest(Seq<char>),
    /// Escaping manifest.
    EscapingManifest(Seq<char>),
    /// Ambiguous lock resolution: package, versions.
    AmbiguousLockResolution(Seq<char>, Seq<Seq<char>>),
    /// Missing inherited base: member, dependency.
    InheritedBaseMissing(Seq<char>, Seq<char>),
    /// Unsupported requirement: package, dependency, reason.
    UnsupportedRequirement(Seq<char>, Seq<char>, Seq<char>),
    /// A limit was reached.
    LimitExceeded(InspectionLimit),
    /// Illegal member path hint.
    IllegalMemberPath(Seq<char>),
    /// Nested workspace root.
    NestedWorkspaceRoot(Seq<char>),
    /// Missing workspace field: field, package.
    WorkspaceFieldNotFound(Seq<char>, Seq<char>),
    /// Rejected `workspace = false`: dependency, package.
    WorkspaceFalseRejected(Seq<char>, Seq<char>),
    /// Rejected override: dependency, package, key.
    WorkspaceOverrideRejected(Seq<char>, Seq<char>, Seq<char>),
    /// Invalid bench path: bench name, package.
    InvalidBenchPath(Seq<char>, Seq<char>),
}

impl View for CargoInspectionWarning {
    type V = CargoWarningV;

    open spec fn view(&self) -> CargoWarningV {
        match self {
            CargoInspectionWarning::MissingManifest { path } => CargoWarningV::MissingManifest(path@),
            CargoInspectionWarning::MissingLock { path } => CargoWarningV::MissingLock(path@),
            CargoInspectionWarning::MalformedManifest { path, reason, line, column } =>
                CargoWarningV::MalformedManifest(path@, reason@, *line, *column),
            CargoInspectionWarning::MalformedLock { path, reason, line, column } =>
                CargoWarningV::MalformedLock(path@, reason@, *line, *column),
            CargoInspectionWarning::SymlinkedManifest { path } => CargoWarningV::SymlinkedManifest(path@),
            CargoInspectionWarning::EscapingManifest { path } => CargoWarningV::EscapingManifest(path@),
            CargoInspectionWarning::AmbiguousLockResolution { package, versions } =>
                CargoWarningV::AmbiguousLockResolution(package@, crate::order::views(versions@)),
            CargoInspectionWarning::InheritedBaseMissing { member, dep } =>
                CargoWarningV::InheritedBaseMissing(member@, dep@),
            CargoInspectionWarning::UnsupportedRequirement { package, dep, reason } =>
                CargoWarningV::UnsupportedRequirement(package@, dep@, reason@),
            CargoInspectionWarning::LimitExceeded { limit } => CargoWarningV::LimitExceeded(*limit),
            CargoInspectionWarning::IllegalMemberPath { member } => CargoWarningV::IllegalMemberPath(member@),
            CargoInspectionWarning::NestedWorkspaceRoot { path } => CargoWarningV::NestedWorkspaceRoot(path@),
            CargoInspectionWarning::WorkspaceFieldNotFound { field, package } =>
                CargoWarningV::WorkspaceFieldNotFound(field@, package@),
            CargoInspectionWarning::WorkspaceFalseRejected { dep, package } =>
                CargoWarningV::WorkspaceFalseRejected(dep@, package@),
            CargoInspectionWarning::WorkspaceOverrideRejected { dep, package, key } =>
                CargoWarningV::WorkspaceOverrideRejected(dep@, package@, key@),
            CargoInspectionWarning::InvalidBenchPath { bench_name, package } =>
                CargoWarningV::InvalidBenchPath(bench_name@, package@),
        }
    }
}

/// Views of a list of warnings.
pub open spec fn warning_views(v: Seq<CargoInspectionWarning>) -> Seq<CargoWarningV> {
    v.map_values(|w: CargoInspectionWarning| w@)
}

} // verus!
