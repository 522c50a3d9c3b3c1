//! Reading the project-root `.cargo/config.toml`: the decisions around
//! opening and the bounded read (the caller opens the file without
//! following symlinks), and parsing the accepted bytes into settings.

use vstd::prelude::*;
use vstd::string::StringExecFns;

use crate::error::{DiscoveryError, DiscoveryResult};
use crate::hashing::{empty_input_hash, sha256_hex, spec_sha256_hex};
use crate::inspect::cargo::lock::{
    spec_malformed_reason, spec_toml_line_col, toml_line_col, toml_malformed_reason, utf8_text,
};
use crate::inspect::cargo::manifest::doc_entries;
use crate::inspect::cargo::provenance::{sat_add, ProvenanceAccumulator};
use crate::inspect::cargo::toml_value::{parse_toml, spec_parse_toml, TomlValue};
use crate::inspect::cargo_config::settings::{build_settings_is, build_warnings, parse_build};
use crate::inspect::cargo_config::targets::{parse_targets, targets_parsed};
use crate::inspect::cargo_config::types::{
    platform_warning_views, CargoBuildSettings, CargoPlatformWarning, CargoTargetSettings, ConfigSource,
    PlatformWarningV,
};
use crate::inspect::framing::framed_hash_of;
use crate::inspect::snapshot::{InspectionLimit, InspectionLimits, SnapshotState};
use crate::inspect::traversal::{bounded_read, bounded_read_possible, BoundedOutcome};
use crate::ndjson::io_error_text;

verus! {

/// The project-relative path of the config file.
pub open spec fn config_path() -> Seq<char> {
    ".cargo/config.toml"@
}

/// An accepted config file: its provenance and bytes.
pub struct AcceptedConfig {
    /// Provenance of the accepted bytes.
    pub source: ConfigSource,
    /// The accepted bytes.
    pub bytes: Vec<u8>,
}

/// The outcome of reading the config file.
pub struct ConfigRead {
    /// The accepted file, when read within limits.
    pub accepted: Option<AcceptedConfig>,
    /// Framed input hash over the accepted file (of no input when none).
    pub input_hash: String,
    /// Number of accepted files.
    pub file_count: u64,
    /// Accepted bytes.
    pub total_bytes: u64,
    /// Completion state.
    pub state: SnapshotState,
    /// Warnings.
    pub warnings: Vec<CargoPlatformWarning>,
}

/// Whether `r` accepted nothing and ends in `state` with warnings `w`.
pub open spec fn empty_read(r: ConfigRead, state: SnapshotState, w: Seq<PlatformWarningV>) -> bool {
    &&& r.accepted is None
    &&& r.input_hash@ == spec_sha256_hex(seq![])
    &&& r.file_count == 0
    &&& r.total_bytes == 0
    &&& r.state == state
    &&& platform_warning_views(r.warnings@) == w
}

fn empty_read_of(state: SnapshotState, warnings: Vec<CargoPlatformWarning>) -> (r: ConfigRead)
    ensures
        empty_read(r, state, platform_warning_views(warnings@)),
{
    ConfigRead { accepted: None, input_hash: empty_input_hash(), file_count: 0, total_bytes: 0, state, warnings }
}

/// The checks made before opening: wall-clock time left, and a traversal
/// depth that reaches `.cargo/config.toml` (two levels). Returns the final
/// read when a check stops inspection.
pub fn config_precheck(elapsed_millis: u64, limits: &InspectionLimits) -> (r: Option<ConfigRead>)
    ensures
        elapsed_millis >= limits.max_inspection_wall_millis ==> (r matches Some(cr) && empty_read(
            cr,
            SnapshotState::LimitExceeded {
                limit: InspectionLimit::WallClock {
                    max_millis: limits.max_inspection_wall_millis,
                    observed_millis: elapsed_millis,
                },
            },
            seq![],
        )),
        elapsed_millis < limits.max_inspection_wall_millis && limits.max_traversal_depth < 2 ==> (r matches Some(
            cr,
        ) && empty_read(
            cr,
            SnapshotState::LimitExceeded {
                limit: InspectionLimit::TraversalDepth { max: limits.max_traversal_depth },
            },
            seq![],
        )),
        elapsed_millis < limits.max_inspection_wall_millis && limits.max_traversal_depth >= 2 ==> r is None,
{
    let warnings: Vec<CargoPlatformWarning> = Vec::new();
    assert(platform_warning_views(warnings@) =~= seq![]);
    if elapsed_millis >= limits.max_inspection_wall_millis {
        return Some(
            empty_read_of(
                SnapshotState::LimitExceeded {
                    limit: InspectionLimit::WallClock {
                        max_millis: limits.max_inspection_wall_millis,
                        observed_millis: elapsed_millis,
                    },
                },
                warnings,
            ),
        );
    }
    if limits.max_traversal_depth < 2 {
        return Some(
            empty_read_of(
                SnapshotState::LimitExceeded {
                    limit: InspectionLimit::TraversalDepth { max: limits.max_traversal_depth },
                },
                warnings,
            ),
        );
    }
    None
}

/// The outcome of opening `.cargo/config.toml` without following symlinks.
pub enum ConfigOpen {
    /// Opened as a regular file.
    Opened,
    /// `.cargo` or `config.toml` does not exist.
    Missing,
    /// `.cargo` or `config.toml` is a symlink or not a directory.
    Symlink,
    /// `config.toml` is not a regular file.
    Unsupported,
    /// The open failed otherwise.
    Failed,
}

/// What an open outcome means: a missing, symlinked, or unsupported config
/// ends the read with a warning; an opened one is read unless the file
/// limit is zero. Returns the final read when nothing is read.
///
/// # Errors
///
/// Returns [`DiscoveryError::InspectionFailure`] when the open failed.
pub fn config_after_open(open: ConfigOpen, limits: &InspectionLimits) -> (r: DiscoveryResult<Option<ConfigRead>>)
    ensures
        open is Failed ==> (r matches Err(DiscoveryError::InspectionFailure(m)) && m@
            == "cannot open project config"@),
        open is Missing ==> (r matches Ok(Some(cr)) && empty_read(
            cr,
            SnapshotState::Complete,
            seq![PlatformWarningV::MissingConfig(config_path())],
        )),
        open is Symlink ==> (r matches Ok(Some(cr)) && empty_read(
            cr,
            SnapshotState::Complete,
            seq![PlatformWarningV::SymlinkedConfig(config_path())],
        )),
        open is Unsupported ==> (r matches Ok(Some(cr)) && empty_read(
            cr,
            SnapshotState::Complete,
            seq![PlatformWarningV::UnsupportedConfigFile(config_path(), "config path is not a regular file"@)],
        )),
        open is Opened && limits.max_inspection_files == 0 ==> (r matches Ok(Some(cr)) && empty_read(
            cr,
            SnapshotState::LimitExceeded {
                limit: InspectionLimit::FileCount { max: limits.max_inspection_files, observed: 1 },
            },
            seq![],
        )),
        open is Opened && limits.max_inspection_files > 0 ==> r matches Ok(None),
{
    let mut warnings: Vec<CargoPlatformWarning> = Vec::new();
    match open {
        ConfigOpen::Failed => Err(DiscoveryError::InspectionFailure(String::from_str("cannot open project config"))),
        ConfigOpen::Missing => {
            warnings.push(CargoPlatformWarning::MissingConfig { path: String::from_str(".cargo/config.toml") });
            assert(platform_warning_views(warnings@) =~= seq![PlatformWarningV::MissingConfig(config_path())]);
            Ok(Some(empty_read_of(SnapshotState::Complete, warnings)))
        },
        ConfigOpen::Symlink => {
            warnings.push(CargoPlatformWarning::SymlinkedConfig { path: String::from_str(".cargo/config.toml") });
            assert(platform_warning_views(warnings@) =~= seq![PlatformWarningV::SymlinkedConfig(config_path())]);
            Ok(Some(empty_read_of(SnapshotState::Complete, warnings)))
        },
        ConfigOpen::Unsupported => {
            warnings.push(
                CargoPlatformWarning::UnsupportedConfigFile {
                    path: String::from_str(".cargo/config.toml"),
                    reason: String::from_str("config path is not a regular file"),
                },
            );
            assert(platform_warning_views(warnings@) =~= seq![
                PlatformWarningV::UnsupportedConfigFile(config_path(), "config path is not a regular file"@),
            ]);
            Ok(Some(empty_read_of(SnapshotState::Complete, warnings)))
        },
        ConfigOpen::Opened => {
            if limits.max_inspection_files == 0 {
                assert(platform_warning_views(warnings@) =~= seq![]);
                Ok(
                    Some(
                        empty_read_of(
                            SnapshotState::LimitExceeded {
                                limit: InspectionLimit::FileCount { max: limits.max_inspection_files, observed: 1 },
                            },
                            warnings,
                        ),
                    ),
                )
            } else {
                Ok(None)
            }
        },
    }
}

/// The framed input hash over the accepted config file alone.
pub fn framed_config_hash(bytes: &[u8]) -> (r: String)
    ensures
        r@ == framed_hash_of(seq![(config_path(), bytes@)]),
{
    let mut p = ProvenanceAccumulator::new();
    p.accept(".cargo/config.toml", bytes);
    assert(p.spec_entries() =~= seq![(config_path(), bytes@)]);
    p.compute_hash()
}

/// What a bounded read `bounded` of the config file gives as `r` (the
/// contract of [`config_read_of`]).
pub open spec fn config_read_is(bounded: BoundedOutcome, limits: InspectionLimits, r: ConfigRead) -> bool {
    &&& bounded is PerFileExceeded ==> empty_read(
        r,
        SnapshotState::LimitExceeded {
            limit: InspectionLimit::PerFileBytes {
                max: limits.max_per_file_bytes,
                observed: sat_add(limits.max_per_file_bytes, 1),
            },
        },
        seq![
            PlatformWarningV::LimitExceeded(
                InspectionLimit::PerFileBytes {
                    max: limits.max_per_file_bytes,
                    observed: sat_add(limits.max_per_file_bytes, 1),
                },
            ),
        ],
    )
    &&& bounded matches BoundedOutcome::Accepted(b) ==> (b@.len() > limits.max_inspection_bytes ==> empty_read(
        r,
        SnapshotState::LimitExceeded {
            limit: InspectionLimit::TotalBytes {
                max: limits.max_inspection_bytes,
                observed: sat_add(limits.max_inspection_bytes, 1),
            },
        },
        seq![
            PlatformWarningV::LimitExceeded(
                InspectionLimit::TotalBytes {
                    max: limits.max_inspection_bytes,
                    observed: sat_add(limits.max_inspection_bytes, 1),
                },
            ),
        ],
    ))
    &&& bounded matches BoundedOutcome::Accepted(b) ==> (b@.len() <= limits.max_inspection_bytes ==> ({
        &&& r.accepted matches Some(a) && a.bytes@ == b@ && a.source@ == (
            config_path(),
            None::<usize>,
            spec_sha256_hex(b@),
            b@.len() as u64,
        )
        &&& r.input_hash@ == framed_hash_of(seq![(config_path(), b@)])
        &&& r.file_count == 1
        &&& r.total_bytes == b@.len()
        &&& r.state == SnapshotState::Complete
        &&& r.warnings@.len() == 0
    }))
}

/// What a bounded read of the config file gives: over the per-file limit,
/// or over the aggregate limit, the read ends with that limit as state and
/// warning; otherwise the bytes are accepted.
pub fn config_read_of(bounded: BoundedOutcome, limits: &InspectionLimits) -> (r: ConfigRead)
    ensures
        bounded is PerFileExceeded ==> empty_read(
            r,
            SnapshotState::LimitExceeded {
                limit: InspectionLimit::PerFileBytes {
                    max: limits.max_per_file_bytes,
                    observed: sat_add(limits.max_per_file_bytes, 1),
                },
            },
            seq![
                PlatformWarningV::LimitExceeded(
                    InspectionLimit::PerFileBytes {
                        max: limits.max_per_file_bytes,
                        observed: sat_add(limits.max_per_file_bytes, 1),
                    },
                ),
            ],
        ),
        bounded matches BoundedOutcome::Accepted(b) ==> (b@.len() > limits.max_inspection_bytes ==> empty_read(
            r,
            SnapshotState::LimitExceeded {
                limit: InspectionLimit::TotalBytes {
                    max: limits.max_inspection_bytes,
                    observed: sat_add(limits.max_inspection_bytes, 1),
                },
            },
            seq![
                PlatformWarningV::LimitExceeded(
                    InspectionLimit::TotalBytes {
                        max: limits.max_inspection_bytes,
                        observed: sat_add(limits.max_inspection_bytes, 1),
                    },
                ),
            ],
        )),
        bounded matches BoundedOutcome::Accepted(b) ==> (b@.len() <= limits.max_inspection_bytes ==> ({
            &&& r.accepted matches Some(a) && a.bytes@ == b@ && a.source@ == (
                config_path(),
                None::<usize>,
                spec_sha256_hex(b@),
                b@.len() as u64,
            )
            &&& r.input_hash@ == framed_hash_of(seq![(config_path(), b@)])
            &&& r.file_count == 1
            &&& r.total_bytes == b@.len()
            &&& r.state == SnapshotState::Complete
            &&& r.warnings@.len() == 0
        })),
{
    let mut warnings: Vec<CargoPlatformWarning> = Vec::new();
    match bounded {
        BoundedOutcome::PerFileExceeded => {
            let limit = InspectionLimit::PerFileBytes {
                max: limits.max_per_file_bytes,
                observed: limits.max_per_file_bytes.saturating_add(1),
            };
            warnings.push(CargoPlatformWarning::LimitExceeded { limit });
            assert(platform_warning_views(warnings@) =~= seq![PlatformWarningV::LimitExceeded(limit)]);
            empty_read_of(SnapshotState::LimitExceeded { limit }, warnings)
        },
        BoundedOutcome::Accepted(bytes) => {
            let len = bytes.len() as u64;
            if len > limits.max_inspection_bytes {
                let limit = InspectionLimit::TotalBytes {
                    max: limits.max_inspection_bytes,
                    observed: limits.max_inspection_bytes.saturating_add(1),
                };
                warnings.push(CargoPlatformWarning::LimitExceeded { limit });
                assert(platform_warning_views(warnings@) =~= seq![PlatformWarningV::LimitExceeded(limit)]);
                return empty_read_of(SnapshotState::LimitExceeded { limit }, warnings);
            }
            let source = ConfigSource {
                path: String::from_str(".cargo/config.toml"),
                line: None,
                content_hash: sha256_hex(bytes.as_slice()),
                byte_count: len,
            };
            let input_hash = framed_config_hash(bytes.as_slice());
            ConfigRead {
                accepted: Some(AcceptedConfig { source, bytes }),
                input_hash,
                file_count: 1,
                total_bytes: len,
                state: SnapshotState::Complete,
                warnings,
            }
        },
    }
}

/// Reads the opened config file within the per-file and aggregate limits:
/// [`bounded_read`] asks the reader for at most
/// [`read_limit`](crate::inspect::traversal::read_limit) of the two limits,
/// and [`config_read_of`] turns what it gives into the config read.
///
/// Accepted bytes never exceed either limit; what they are depends on the
/// reader.
///
/// # Errors
///
/// Returns [`DiscoveryError::Io`] with the reader's error text.
pub fn read_config_file<R: std::io::Read>(reader: &mut R, limits: &InspectionLimits) -> (r: DiscoveryResult<
    ConfigRead,
>)
    ensures
        r matches Ok(cr) ==> (cr.accepted matches Some(a) ==> a.bytes@.len() <= limits.max_per_file_bytes
            && a.bytes@.len() <= limits.max_inspection_bytes),
        r matches Ok(cr) ==> exists|b: BoundedOutcome|
            bounded_read_possible(b, limits.max_per_file_bytes, limits.max_inspection_bytes)
                && #[trigger] config_read_is(b, *limits, cr),
        r matches Err(e) ==> e is Io,
{
    match bounded_read(reader, limits.max_per_file_bytes, limits.max_inspection_bytes) {
        Ok(b) => {
            let ghost gb = b;
            let cr = config_read_of(b, limits);
            assert(config_read_is(gb, *limits, cr));
            Ok(cr)
        },
        Err(e) => Err(DiscoveryError::Io(io_error_text(&e))),
    }
}

/// Parsed `[build]` and `[target.*]` settings, plus parse warnings.
pub struct ParsedConfig {
    /// `[build]` settings.
    pub build_settings: CargoBuildSettings,
    /// `[target.<key>]` settings.
    pub target_settings: Vec<CargoTargetSettings>,
    /// Warnings.
    pub warnings: Vec<CargoPlatformWarning>,
}

/// Whether `b` holds no settings and no source.
pub open spec fn no_build_settings(b: CargoBuildSettings) -> bool {
    &&& b.target@.len() == 0
    &&& b.custom_targets.count == 0
    &&& b.custom_targets.identity@ == spec_sha256_hex(seq![])
    &&& !b.target_dir_set
    &&& b.incremental is None
    &&& b.rustflags.is_empty_evidence()
    &&& b.rustdocflags.is_empty_evidence()
    &&& b.source is None
}

/// Parses accepted config bytes into settings. Bytes that are not UTF-8 or
/// not TOML give no settings and one warning (never holding source text).
pub fn parse_config(bytes: &[u8], source: &ConfigSource) -> (r: ParsedConfig)
    requires
        bytes@.len() < usize::MAX,
    ensures
        !vstd::utf8::valid_utf8(bytes@) ==> no_build_settings(r.build_settings) && r.target_settings@.len() == 0
            && platform_warning_views(r.warnings@) == seq![
            PlatformWarningV::InvalidUtf8Config(source.path@, source.content_hash@, source.byte_count),
        ],
        vstd::utf8::valid_utf8(bytes@) ==> match spec_parse_toml(vstd::utf8::decode_utf8(bytes@)) {
            Err(e) => no_build_settings(r.build_settings) && r.target_settings@.len() == 0
                && platform_warning_views(r.warnings@) == seq![
                PlatformWarningV::MalformedConfig(
                    source.path@,
                    spec_malformed_reason(e.message@),
                    spec_toml_line_col(e, bytes@).0,
                    spec_toml_line_col(e, bytes@).1,
                    source.content_hash@,
                ),
            ],
            Ok(doc) => build_settings_is(r.build_settings, doc_entries(doc), source@) && targets_parsed(
                r.target_settings@,
                platform_warning_views(build_warnings(doc_entries(doc))),
                platform_warning_views(r.warnings@),
                doc_entries(doc),
                source@,
            ),
        },
{
    let mut warnings: Vec<CargoPlatformWarning> = Vec::new();
    let text = match utf8_text(bytes) {
        Some(t) => t,
        None => {
            warnings.push(
                CargoPlatformWarning::InvalidUtf8Config {
                    path: source.path.clone(),
                    content_hash: source.content_hash.clone(),
                    byte_count: source.byte_count,
                },
            );
            assert(platform_warning_views(warnings@) =~= seq![
                PlatformWarningV::InvalidUtf8Config(source.path@, source.content_hash@, source.byte_count),
            ]);
            return ParsedConfig { build_settings: CargoBuildSettings::empty(), target_settings: Vec::new(), warnings };
        },
    };
    proof {
        vstd::utf8::encode_utf8_decode_utf8(text@);
    }
    let doc = match parse_toml(text) {
        Ok(v) => v,
        Err(e) => {
            let (line, column) = toml_line_col(&e, bytes);
            warnings.push(
                CargoPlatformWarning::MalformedConfig {
                    path: source.path.clone(),
                    reason: toml_malformed_reason(&e),
                    line,
                    column,
                    content_hash: source.content_hash.clone(),
                },
            );
            assert(platform_warning_views(warnings@) =~= seq![warnings@[0]@]);
            return ParsedConfig { build_settings: CargoBuildSettings::empty(), target_settings: Vec::new(), warnings };
        },
    };
    let empty: Vec<(String, TomlValue)> = Vec::new();
    let m: &Vec<(String, TomlValue)> = match &doc {
        TomlValue::Table(t, _) => t,
        _ => &empty,
    };
    assert(m@ == doc_entries(doc));
    let build_settings = parse_build(m, source, &mut warnings);
    let target_settings = parse_targets(m, source, &mut warnings);
    ParsedConfig { build_settings, target_settings, warnings }
}

} // verus!
