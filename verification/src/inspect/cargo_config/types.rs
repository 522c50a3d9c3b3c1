//! Public types for Cargo platform configuration inspection.

use vstd::prelude::*;

use crate::hashing::{empty_input_hash, spec_sha256_hex};
use crate::inspect::cargo::types::{DependencyKind, ManifestSource, SystemDependencyKind};
use crate::inspect::snapshot::{InspectionLimit, SnapshotState, SourceLocation};

verus! {

/// Composed Cargo platform inspection.
#[derive(Debug, PartialEq, Eq)]
pub struct CargoPlatformInspection {
    /// `[build]` settings.
    pub build_settings: CargoBuildSettings,
    /// `[target.<key>]` settings.
    pub target_settings: Vec<CargoTargetSettings>,
    /// Configured WASM targets.
    pub wasm_targets: Vec<WasmTargetEvidence>,
    /// Native/linker requirements.
    pub native_requirements: Vec<NativeRequirement>,
    /// Benchmark evidence.
    pub benchmarks: Vec<BenchmarkEvidence>,
    /// `no_std` evidence.
    pub no_std_evidence: NoStdEvidence,
    /// Target cfg constraints.
    pub target_cfg_constraints: Vec<TargetCfgConstraint>,
    /// Warnings.
    pub warnings: Vec<CargoPlatformWarning>,
    /// Provenance of the config input.
    pub config_input: ConfigInputProvenance,
    /// Completion state.
    pub state: SnapshotState,
}

/// Sanitized `[build]` settings.
#[derive(Debug, PartialEq, Eq, PartialOrd, Ord)]
pub struct CargoBuildSettings {
    /// Validated target triples, sorted and deduplicated.
    pub target: Vec<String>,
    /// Opaque custom target spec evidence.
    pub custom_targets: CustomTargetEvidence,
    /// Whether `target-dir` is set.
    pub target_dir_set: bool,
    /// `incremental`, when a boolean.
    pub incremental: Option<bool>,
    /// `rustflags` evidence.
    pub rustflags: RustflagsEvidence,
    /// `rustdocflags` evidence.
    pub rustdocflags: RustflagsEvidence,
    /// The accepted config source.
    pub source: Option<ConfigSource>,
}

impl CargoBuildSettings {
    /// Empty settings with no source.
    pub fn empty() -> (r: Self)
        ensures
            r.target@.len() == 0,
            r.custom_targets.count == 0,
            r.custom_targets.identity@ == spec_sha256_hex(seq![]),
            !r.target_dir_set,
            r.incremental is None,
            r.rustflags.is_empty_evidence(),
            r.rustdocflags.is_empty_evidence(),
            r.source is None,
    {
        CargoBuildSettings {
            target: Vec::new(),
            custom_targets: CustomTargetEvidence::empty(),
            target_dir_set: false,
            incremental: None,
            rustflags: RustflagsEvidence::empty(),
            rustdocflags: RustflagsEvidence::empty(),
            source: None,
        }
    }
}

/// Opaque custom target spec evidence (count plus framed identity).
#[derive(Debug, PartialEq, Eq, PartialOrd, Ord)]
pub struct CustomTargetEvidence {
    /// Number of custom target specs.
    pub count: usize,
    /// Framed SHA-256 identity.
    pub identity: String,
}

impl CustomTargetEvidence {
    /// No custom targets.
    pub fn empty() -> (r: Self)
        ensures
            r.count == 0,
            r.identity@ == spec_sha256_hex(seq![]),
    {
        CustomTargetEvidence { count: 0, identity: empty_input_hash() }
    }
}

/// Sanitized `[target.<key>]` settings.
#[derive(Debug, PartialEq, Eq, PartialOrd, Ord)]
pub struct CargoTargetSettings {
    /// Normalized key.
    pub key: CargoTargetKey,
    /// `rustflags` evidence.
    pub rustflags: RustflagsEvidence,
    /// `rustdocflags` evidence.
    pub rustdocflags: RustflagsEvidence,
    /// Sanitized linker.
    pub linker: Option<ConfiguredLinker>,
    /// Sanitized runner.
    pub runner: Option<ConfiguredRunner>,
    /// The accepted config source.
    pub source: ConfigSource,
}

/// A validated target table key.
#[derive(Debug, PartialEq, Eq, PartialOrd, Ord, Hash)]
pub enum CargoTargetKey {
    /// A target triple.
    Triple {
        /// The triple.
        triple: String,
    },
    /// A `cfg(...)` selector.
    Cfg {
        /// Redacted display form.
        display: String,
        /// Distinct SHA-256 identity.
        identity: String,
    },
}

/// View of a target key: the triple, or the display and identity.
pub enum TargetKeyV {
    /// A triple.
    Triple(Seq<char>),
    /// A cfg selector.
    Cfg(Seq<char>, Seq<char>),
}

impl View for CargoTargetKey {
    type V = TargetKeyV;

    open spec fn view(&self) -> TargetKeyV {
        match self {
            CargoTargetKey::Triple { triple } => TargetKeyV::Triple(triple@),
            CargoTargetKey::Cfg { display, identity } => TargetKeyV::Cfg(display@, identity@),
        }
    }
}

impl Clone for CargoTargetKey {
    fn clone(&self) -> (r: Self)
        ensures
            r@ == self@,
    {
        match self {
            CargoTargetKey::Triple { triple } => CargoTargetKey::Triple { triple: triple.clone() },
            CargoTargetKey::Cfg { display, identity } => CargoTargetKey::Cfg {
                display: display.clone(),
                identity: identity.clone(),
            },
        }
    }
}

/// Sanitized rustflags evidence: counts, categories, and framed identities.
#[derive(Debug, PartialEq, Eq, PartialOrd, Ord)]
pub struct RustflagsEvidence {
    /// Number of flag tokens.
    pub flag_count: usize,
    /// Per-category counts, in category order.
    pub categories: Vec<RustflagCategoryCount>,
    /// Whether any native-linking flag is present.
    pub has_native_linking: bool,
    /// Number of native-linking flags.
    pub native_flag_count: usize,
    /// Framed SHA-256 identity over all tokens.
    pub identity: String,
    /// Framed SHA-256 identity over native-linking tokens.
    pub native_identity: String,
}

impl RustflagsEvidence {
    /// Whether this is the evidence of no flags.
    pub open spec fn is_empty_evidence(&self) -> bool {
        &&& self.flag_count == 0
        &&& self.categories@.len() == 0
        &&& !self.has_native_linking
        &&& self.native_flag_count == 0
        &&& self.identity@ == spec_sha256_hex(seq![])
        &&& self.native_identity@ == spec_sha256_hex(seq![])
    }

    /// Evidence of no flags.
    pub fn empty() -> (r: Self)
        ensures
            r.is_empty_evidence(),
    {
        let empty = empty_input_hash();
        RustflagsEvidence {
            flag_count: 0,
            categories: Vec::new(),
            has_native_linking: false,
            native_flag_count: 0,
            identity: empty.clone(),
            native_identity: empty,
        }
    }
}

/// Count of flags in one category.
#[derive(Clone, Copy, Debug, PartialEq, Eq, PartialOrd, Ord, Structural)]
pub struct RustflagCategoryCount {
    /// The category.
    pub category: RustflagCategory,
    /// Number of flags.
    pub count: usize,
}

/// Prefix category of a rustflag token (values never inspected).
#[derive(Clone, Copy, Debug, PartialEq, Eq, PartialOrd, Ord, Hash, Structural)]
pub enum RustflagCategory {
    /// `link-arg(s)`.
    LinkArg,
    /// `linker`.
    Linker,
    /// `-L` / `link-search-path`.
    LinkSearch,
    /// `-l`.
    LibraryLink,
    /// `target-feature` / `target-cpu`.
    TargetFeature,
    /// `--cfg`.
    Cfg,
    /// `-Z`.
    Unstable,
    /// Other `-C` codegen options.
    Codegen,
    /// `-W` / `--warn`.
    Warning,
    /// `--remap-path-prefix`.
    RemapPath,
    /// Anything else.
    Unknown,
}

impl RustflagCategory {
    /// Whether the category affects native linking.
    pub open spec fn spec_is_native_linking(self) -> bool {
        self is LinkArg || self is Linker || self is LinkSearch || self is LibraryLink
    }

    /// Whether the category affects native linking.
    pub fn is_native_linking(self) -> (r: bool)
        ensures
            r == self.spec_is_native_linking(),
    {
        match self {
            RustflagCategory::LinkArg | RustflagCategory::Linker | RustflagCategory::LinkSearch
            | RustflagCategory::LibraryLink => true,
            _ => false,
        }
    }
}

/// A sanitized configured linker.
#[derive(Debug, PartialEq, Eq, PartialOrd, Ord)]
pub struct ConfiguredLinker {
    /// Executable basename.
    pub basename: String,
    /// Framed SHA-256 identity of the raw value.
    pub identity: String,
}

/// A sanitized configured runner.
#[derive(Debug, PartialEq, Eq, PartialOrd, Ord)]
pub struct ConfiguredRunner {
    /// Executable basename.
    pub executable_basename: String,
    /// Number of tokens.
    pub token_count: usize,
    /// Framed SHA-256 identity of the tokens.
    pub identity: String,
}

/// A configured WASM target.
#[derive(Debug, PartialEq, Eq, PartialOrd, Ord)]
pub struct WasmTargetEvidence {
    /// The triple.
    pub target: String,
    /// Where it was configured.
    pub origins: Vec<WasmTargetOrigin>,
    /// Config sources.
    pub sources: Vec<ConfigSource>,
}

/// Where a WASM target was configured.
#[derive(Clone, Copy, Debug, PartialEq, Eq, PartialOrd, Ord, Hash, Structural)]
pub enum WasmTargetOrigin {
    /// `[build].target`.
    BuildTarget,
    /// A `[target.<triple>]` table.
    TargetTable,
}

/// A native/linker requirement.
#[derive(Debug, PartialEq, Eq)]
pub enum NativeRequirement {
    /// `package.links`.
    CargoLinks {
        /// Links key.
        links_key: String,
        /// Package.
        package: String,
        /// Manifest path.
        manifest_path: String,
        /// Manifest source.
        source: ManifestSource,
    },
    /// A native-build helper dependency.
    SystemDependency {
        /// Dependency key.
        alias: String,
        /// Package.
        package: String,
        /// Helper kind.
        system_kind: SystemDependencyKind,
        /// Dependency kind.
        dependency_kind: DependencyKind,
        /// Target selector.
        target: Option<String>,
        /// Manifest source.
        source: ManifestSource,
    },
    /// A configured target linker.
    ConfiguredLinker {
        /// Target key.
        target_key: CargoTargetKey,
        /// Linker basename.
        basename: String,
        /// Config source.
        config: ConfigSource,
    },
    /// Native-linking rustflags.
    NativeRustflags {
        /// Scope of the flags.
        scope: RustflagsScope,
        /// Number of native flags.
        flag_count: usize,
        /// Framed identity of the native flags.
        identity: String,
        /// Config source.
        config: ConfigSource,
    },
}

/// Scope of a rustflags setting.
#[derive(Debug, PartialEq, Eq, PartialOrd, Ord)]
pub enum RustflagsScope {
    /// `[build]`.
    Build,
    /// `[target.<key>]`.
    Target {
        /// The key.
        key: CargoTargetKey,
    },
}

/// Benchmark evidence.
#[derive(Debug, PartialEq, Eq, PartialOrd, Ord)]
pub struct BenchmarkEvidence {
    /// Package.
    pub package: String,
    /// Bench name.
    pub name: String,
    /// Project-relative path.
    pub path: String,
    /// Declaration/source status.
    pub status: BenchmarkStatus,
    /// Whether the libtest harness is used.
    pub harness: bool,
    /// Required features.
    pub required_features: Vec<String>,
    /// Source location of the bench file.
    pub source: Option<SourceLocation>,
    /// Manifest declaration source.
    pub declaration_source: Option<ManifestSource>,
}

/// Whether a bench is declared and whether its source exists.
#[derive(Debug, PartialEq, Eq, PartialOrd, Ord)]
pub enum BenchmarkStatus {
    /// Declared and found.
    DeclaredWithSource,
    /// Declared but missing.
    DeclaredMissingSource {
        /// The declared path.
        declared_path: String,
    },
    /// Found by convention without a declaration.
    ConventionalUndeclared,
}

/// `no_std` evidence.
#[derive(Debug, PartialEq, Eq)]
pub struct NoStdEvidence {
    /// Whether any package is `no_std`.
    pub has_no_std: bool,
    /// Per-package evidence.
    pub packages: Vec<NoStdPackageEvidence>,
}

/// `no_std` evidence for one package.
#[derive(Debug, PartialEq, Eq, PartialOrd, Ord)]
pub struct NoStdPackageEvidence {
    /// Package.
    pub package: String,
    /// Attribute locations.
    pub sources: Vec<SourceLocation>,
}

/// A platform cfg constraint and its sources.
#[derive(Debug, PartialEq, Eq)]
pub struct TargetCfgConstraint {
    /// Canonical unwrapped predicate.
    pub predicate: String,
    /// Sources.
    pub sources: Vec<TargetCfgSource>,
}

/// Source of a platform cfg constraint.
#[derive(Debug, PartialEq, Eq, PartialOrd, Ord)]
pub enum TargetCfgSource {
    /// A Cargo target-specific dependency selector.
    CargoDependencySelector {
        /// Manifest path.
        manifest_path: String,
        /// Dependency key.
        alias: String,
        /// Package.
        package_name: String,
        /// Manifest source.
        source: ManifestSource,
    },
    /// A Rust `cfg`/`cfg_attr` attribute.
    RustAttribute {
        /// File path.
        path: String,
        /// Whether it is `cfg_attr`.
        is_cfg_attr: bool,
        /// Location.
        source: SourceLocation,
    },
}

/// Provenance of the config input.
#[derive(Debug, PartialEq, Eq)]
pub struct ConfigInputProvenance {
    /// Accepted config source.
    pub source: Option<ConfigSource>,
    /// Framed input hash.
    pub input_hash: String,
    /// Number of accepted config files.
    pub file_count: u64,
    /// Accepted bytes.
    pub total_bytes: u64,
}

/// Source of a config fact.
#[derive(Debug, PartialEq, Eq, PartialOrd, Ord)]
pub struct ConfigSource {
    /// Project-relative path.
    pub path: String,
    /// Line, when known.
    pub line: Option<usize>,
    /// Hex SHA-256 of the file.
    pub content_hash: String,
    /// File size in bytes.
    pub byte_count: u64,
}

impl View for ConfigSource {
    type V = (Seq<char>, Option<usize>, Seq<char>, u64);

    open spec fn view(&self) -> Self::V {
        (self.path@, self.line, self.content_hash@, self.byte_count)
    }
}

impl Clone for ConfigSource {
    fn clone(&self) -> (r: Self)
        ensures
            r@ == self@,
    {
        ConfigSource {
            path: self.path.clone(),
            line: self.line,
            content_hash: self.content_hash.clone(),
            byte_count: self.byte_count,
        }
    }
}

/// A config setting that can carry a typed warning.
#[derive(Clone, Copy, Debug, PartialEq, Eq, PartialOrd, Ord, Hash, Structural)]
pub enum ConfigSetting {
    /// `[build].target`.
    BuildTarget,
    /// `[build].rustflags`.
    BuildRustflags,
    /// `[build].rustdocflags`.
    BuildRustdocflags,
    /// A `[target]` key.
    TargetTableKey,
    /// `[target.<key>].rustflags`.
    TargetTableRustflags,
    /// `[target.<key>].rustdocflags`.
    TargetTableRustdocflags,
    /// `[target.<key>].linker`.
    TargetTableLinker,
    /// `[target.<key>].runner`.
    TargetTableRunner,
}

/// What was wrong with a setting.
#[derive(Clone, Copy, Debug, PartialEq, Eq, PartialOrd, Ord, Hash, Structural)]
pub enum ConfigSettingIssue {
    /// Wrong TOML type.
    WrongType,
    /// Invalid value.
    InvalidValue,
    /// Array with non-string members.
    MixedArray,
    /// Empty value.
    Empty,
}

/// Typed Cargo platform warnings (never file content or secrets).
#[derive(Debug, PartialEq, Eq)]
pub enum CargoPlatformWarning {
    /// No `.cargo/config.toml`.
    MissingConfig {
        /// Path.
        path: String,
    },
    /// Malformed TOML.
    MalformedConfig {
        /// Path.
        path: String,
        /// Stable reason.
        reason: String,
        /// Line.
        line: Option<usize>,
        /// Column.
        column: Option<usize>,
        /// Content hash.
        content_hash: String,
    },
    /// Config bytes were not UTF-8.
    InvalidUtf8Config {
        /// Path.
        path: String,
        /// Content hash.
        content_hash: String,
        /// Size.
        byte_count: u64,
    },
    /// The config path was a symlink.
    SymlinkedConfig {
        /// Path.
        path: String,
    },
    /// A target key was invalid.
    InvalidTargetIdentifier {
        /// Path.
        path: String,
        /// Stable reason.
        reason: String,
    },
    /// Conflicting duplicate target settings.
    DuplicateTargetSetting {
        /// Redacted key display.
        key_display: String,
        /// Number of conflicts.
        count: usize,
    },
    /// An invalid setting value.
    InvalidConfigSetting {
        /// The setting.
        setting: ConfigSetting,
        /// The issue.
        issue: ConfigSettingIssue,
        /// Occurrences.
        count: usize,
    },
    /// A limit was reached.
    LimitExceeded {
        /// The limit.
        limit: InspectionLimit,
    },
    /// The config path was not a regular file.
    UnsupportedConfigFile {
        /// Path.
        path: String,
        /// Stable reason.
        reason: String,
    },
    /// The wall-clock budget was reached.
    WallClock {
        /// Budget.
        max_millis: u64,
        /// Observed.
        observed_millis: u64,
    },
}


/// View of a platform warning.
pub enum PlatformWarningV {
    /// Missing config: path.
    MissingConfig(Seq<char>),
    /// Malformed config: path, reason, line, column, hash.
    MalformedConfig(Seq<char>, Seq<char>, Option<usize>, Option<usize>, Seq<char>),
    /// Config not UTF-8: path, hash, size.
    InvalidUtf8Config(Seq<char>, Seq<char>, u64),
    /// Symlinked config: path.
    SymlinkedConfig(Seq<char>),
    /// Invalid target key: path, reason.
    InvalidTargetIdentifier(Seq<char>, Seq<char>),
    /// Conflicting duplicate target settings: key display, count.
    DuplicateTargetSetting(Seq<char>, usize),
    /// A setting of the wrong shape.
    InvalidConfigSetting(ConfigSetting, ConfigSettingIssue, usize),
    /// A limit was reached.
    LimitExceeded(InspectionLimit),
    /// Config path not a regular file: path, reason.
    UnsupportedConfigFile(Seq<char>, Seq<char>),
    /// Wall-clock budget exhausted: budget, observed.
    WallClock(u64, u64),
}

impl View for CargoPlatformWarning {
    type V = PlatformWarningV;

    open spec fn view(&self) -> PlatformWarningV {
        match self {
            CargoPlatformWarning::MissingConfig { path } => PlatformWarningV::MissingConfig(path@),
            CargoPlatformWarning::MalformedConfig { path, reason, line, column, content_hash } =>
                PlatformWarningV::MalformedConfig(path@, reason@, *line, *column, content_hash@),
            CargoPlatformWarning::InvalidUtf8Config { path, content_hash, byte_count } =>
                PlatformWarningV::InvalidUtf8Config(path@, content_hash@, *byte_count),
            CargoPlatformWarning::SymlinkedConfig { path } => PlatformWarningV::SymlinkedConfig(path@),
            CargoPlatformWarning::InvalidTargetIdentifier { path, reason } =>
                PlatformWarningV::InvalidTargetIdentifier(path@, reason@),
            CargoPlatformWarning::DuplicateTargetSetting { key_display, count } =>
                PlatformWarningV::DuplicateTargetSetting(key_display@, *count),
            CargoPlatformWarning::InvalidConfigSetting { setting, issue, count } =>
                PlatformWarningV::InvalidConfigSetting(*setting, *issue, *count),
            CargoPlatformWarning::LimitExceeded { limit } => PlatformWarningV::LimitExceeded(*limit),
            CargoPlatformWarning::UnsupportedConfigFile { path, reason } =>
                PlatformWarningV::UnsupportedConfigFile(path@, reason@),
            CargoPlatformWarning::WallClock { max_millis, observed_millis } => PlatformWarningV::WallClock(
                *max_millis,
                *observed_millis,
            ),
        }
    }
}

/// Views of platform warnings.
pub open spec fn platform_warning_views(v: Seq<CargoPlatformWarning>) -> Seq<PlatformWarningV> {
    v.map_values(|w: CargoPlatformWarning| w@)
}

} // verus!
