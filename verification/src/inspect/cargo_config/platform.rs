//! Composition of the Cargo platform inspection from the config read, the
//! parsed settings and the Cargo/Rust evidence, with the cooperative
//! wall-clock checks after reading, after parsing and after deriving.
//!
//! The caller reads the config and hands it, with a clock, to
//! [`inspect_platform_from_read`], which observes the elapsed time at each
//! check (see [`super::config::wall_clock_exceeded`]) and decides the result
//! with the step functions here.

use vstd::prelude::*;

use super::config::wall_clock_exceeded;
use super::bench_evidence::{all_benches, bench_key, bench_views, derive_benchmarks, BenchV};
use super::evidence::{derive_native_requirements, derive_wasm_targets, native_requirements, native_views, wasm_targets_are};
use super::reader::{parse_config, ConfigRead, ParsedConfig};
use super::source_evidence::{derive_no_std, derive_target_cfg, no_std_is, target_cfg_are};
use super::types::{
    platform_warning_views, BenchmarkEvidence, CargoBuildSettings, CargoPlatformInspection, CargoPlatformWarning,
    CargoTargetSettings, ConfigInputProvenance, NativeRequirement, NoStdEvidence, PlatformWarningV, TargetCfgConstraint,
    WasmTargetEvidence,
};
use super::warnings::{normalized_warnings, sort_dedup_warnings};
use crate::error::{DiscoveryError, DiscoveryResult};
use crate::inspect::cargo::types::CargoInspection;
use crate::inspect::rust::types::RustSourceInspection;
use crate::inspect::snapshot::{InspectionLimit, SnapshotState};
use crate::sortkey::sorted_unique_by;

verus! {

/// `c` records the read's accepted source, input hash, file count and
/// bytes.
pub open spec fn config_input_is(c: ConfigInputProvenance, read: ConfigRead) -> bool {
    &&& match read.accepted {
        Some(a) => c.source is Some && c.source->0@ == a.source@,
        None => c.source is None,
    }
    &&& c.input_hash@ == read.input_hash@
    &&& c.file_count == read.file_count
    &&& c.total_bytes == read.total_bytes
}

/// Provenance of the config input.
pub fn build_config_input(read: &ConfigRead) -> (r: ConfigInputProvenance)
    ensures
        config_input_is(r, *read),
{
    ConfigInputProvenance {
        source: match &read.accepted {
            Some(a) => Some(a.source.clone()),
            None => None,
        },
        input_hash: read.input_hash.clone(),
        file_count: read.file_count,
        total_bytes: read.total_bytes,
    }
}

/// The evidence derived from settings and Cargo/Rust evidence, all but the
/// benchmarks.
pub open spec fn derived_evidence_is(
    r: CargoPlatformInspection,
    cargo: CargoInspection,
    rust: RustSourceInspection,
    build: CargoBuildSettings,
    targets: Seq<CargoTargetSettings>,
) -> bool {
    &&& r.build_settings == build
    &&& r.target_settings@ == targets
    &&& wasm_targets_are(r.wasm_targets@, build, targets)
    &&& native_views(r.native_requirements@) == native_requirements(cargo, targets, build)
    &&& no_std_is(r.no_std_evidence, rust)
    &&& target_cfg_are(r.target_cfg_constraints@, cargo, rust)
}

/// The wall-clock warning.
pub open spec fn wall_clock_warning(wc: (u64, u64)) -> PlatformWarningV {
    PlatformWarningV::WallClock(wc.0, wc.1)
}

/// The wall-clock limit state.
pub open spec fn wall_clock_state(wc: (u64, u64)) -> SnapshotState {
    SnapshotState::LimitExceeded { limit: InspectionLimit::WallClock { max_millis: wc.0, observed_millis: wc.1 } }
}

fn append_warnings(out: &mut Vec<CargoPlatformWarning>, more: &Vec<CargoPlatformWarning>)
    ensures
        platform_warning_views(final(out)@) == platform_warning_views(old(out)@) + platform_warning_views(more@),
{
    let ghost o = platform_warning_views(out@);
    let mut k: usize = 0;
    while k < more.len()
        invariant
            k <= more@.len(),
            platform_warning_views(out@) == o + platform_warning_views(more@).take(k as int),
        decreases more@.len() - k,
    {
        let ghost prev = out@;
        out.push(super::warnings::copy_platform_warning(&more[k]));
        assert(platform_warning_views(out@) =~= platform_warning_views(prev).push(more@[k as int]@));
        assert(platform_warning_views(more@).take(k + 1) =~= platform_warning_views(more@).take(k as int).push(
            more@[k as int]@,
        ));
        k = k + 1;
    }
    assert(platform_warning_views(more@).take(more@.len() as int) =~= platform_warning_views(more@));
}

/// The inspection when the wall clock ran out right after the config was
/// read: empty settings, the read's warnings and the wall-clock warning
/// normalized, the given benchmark evidence, and the other evidence derived
/// from the empty settings.
pub fn assemble(
    cargo: &CargoInspection,
    rust: &RustSourceInspection,
    read: &ConfigRead,
    build_settings: CargoBuildSettings,
    target_settings: Vec<CargoTargetSettings>,
    benchmarks: Vec<BenchmarkEvidence>,
    wc: (u64, u64),
) -> (r: CargoPlatformInspection)
    ensures
        derived_evidence_is(r, *cargo, *rust, build_settings, target_settings@),
        r.benchmarks == benchmarks,
        platform_warning_views(r.warnings@) == normalized_warnings(
            platform_warning_views(read.warnings@).push(wall_clock_warning(wc)),
        ),
        config_input_is(r.config_input, *read),
        r.state == wall_clock_state(wc),
{
    let mut warnings: Vec<CargoPlatformWarning> = Vec::new();
    append_warnings(&mut warnings, &read.warnings);
    let w = CargoPlatformWarning::WallClock { max_millis: wc.0, observed_millis: wc.1 };
    let ghost prev = platform_warning_views(warnings@);
    warnings.push(w);
    assert(platform_warning_views(warnings@) =~= platform_warning_views(read.warnings@).push(wall_clock_warning(wc)));
    let mut warnings = warnings;
    sort_dedup_warnings(&mut warnings);
    let wasm_targets = derive_wasm_targets(&build_settings, target_settings.as_slice());
    let native_requirements = derive_native_requirements(cargo, target_settings.as_slice(), &build_settings);
    let no_std_evidence = derive_no_std(cargo, rust);
    let target_cfg_constraints = derive_target_cfg(cargo, rust);
    CargoPlatformInspection {
        build_settings,
        target_settings,
        wasm_targets,
        native_requirements,
        benchmarks,
        no_std_evidence,
        target_cfg_constraints,
        warnings,
        config_input: build_config_input(read),
        state: SnapshotState::LimitExceeded {
            limit: InspectionLimit::WallClock { max_millis: wc.0, observed_millis: wc.1 },
        },
    }
}

/// The inspection when the wall clock ran out right after parsing: the
/// parsed settings, the parse warnings, the read's warnings and the
/// wall-clock warning normalized, and all evidence derived.
pub fn assemble_with_wall_clock_after_parse(
    cargo: &CargoInspection,
    rust: &RustSourceInspection,
    read: &ConfigRead,
    build_settings: CargoBuildSettings,
    target_settings: Vec<CargoTargetSettings>,
    parse_warnings: Vec<CargoPlatformWarning>,
    wc: (u64, u64),
) -> (r: CargoPlatformInspection)
    ensures
        derived_evidence_is(r, *cargo, *rust, build_settings, target_settings@),
        sorted_unique_by(bench_views(r.benchmarks@), all_benches(*cargo, *rust), |x: BenchV| bench_key(x)),
        platform_warning_views(r.warnings@) == normalized_warnings(
            (platform_warning_views(parse_warnings@) + platform_warning_views(read.warnings@)).push(
                wall_clock_warning(wc),
            ),
        ),
        config_input_is(r.config_input, *read),
        r.state == wall_clock_state(wc),
{
    let mut warnings = parse_warnings;
    append_warnings(&mut warnings, &read.warnings);
    let w = CargoPlatformWarning::WallClock { max_millis: wc.0, observed_millis: wc.1 };
    let ghost prev = platform_warning_views(warnings@);
    warnings.push(w);
    assert(platform_warning_views(warnings@) =~= prev.push(wall_clock_warning(wc)));
    let mut warnings = warnings;
    sort_dedup_warnings(&mut warnings);
    let wasm_targets = derive_wasm_targets(&build_settings, target_settings.as_slice());
    let native_requirements = derive_native_requirements(cargo, target_settings.as_slice(), &build_settings);
    let benchmarks = derive_benchmarks(cargo, rust);
    let no_std_evidence = derive_no_std(cargo, rust);
    let target_cfg_constraints = derive_target_cfg(cargo, rust);
    CargoPlatformInspection {
        build_settings,
        target_settings,
        wasm_targets,
        native_requirements,
        benchmarks,
        no_std_evidence,
        target_cfg_constraints,
        warnings,
        config_input: build_config_input(read),
        state: SnapshotState::LimitExceeded {
            limit: InspectionLimit::WallClock { max_millis: wc.0, observed_millis: wc.1 },
        },
    }
}

/// The first wall-clock check, right after the config read: when it trips,
/// the inspection is assembled from empty settings.
pub fn after_config_read(
    cargo: &CargoInspection,
    rust: &RustSourceInspection,
    read: &ConfigRead,
    wall: Option<(u64, u64)>,
) -> (r: Option<CargoPlatformInspection>)
    ensures
        r is Some == wall is Some,
        r matches Some(i) ==> ({
            &&& derived_evidence_is(i, *cargo, *rust, i.build_settings, seq![])
            &&& super::reader::no_build_settings(i.build_settings)
            &&& sorted_unique_by(bench_views(i.benchmarks@), all_benches(*cargo, *rust), |x: BenchV| bench_key(x))
            &&& platform_warning_views(i.warnings@) == normalized_warnings(
                platform_warning_views(read.warnings@).push(wall_clock_warning(wall->0)),
            )
            &&& config_input_is(i.config_input, *read)
            &&& i.state == wall_clock_state(wall->0)
        }),
{
    match wall {
        Some(wc) => {
            let build = CargoBuildSettings::empty();
            let targets: Vec<CargoTargetSettings> = Vec::new();
            let benchmarks = derive_benchmarks(cargo, rust);
            Some(assemble(cargo, rust, read, build, targets, benchmarks, wc))
        },
        None => None,
    }
}

/// The parsed settings of the accepted config, or empty settings when
/// nothing was accepted.
pub fn parse_accepted(read: &ConfigRead) -> (r: ParsedConfig)
    requires
        read.accepted matches Some(a) ==> a.bytes@.len() < usize::MAX,
    ensures
        read.accepted is None ==> super::reader::no_build_settings(r.build_settings) && r.target_settings@.len() == 0
            && r.warnings@.len() == 0,
{
    match &read.accepted {
        Some(a) => parse_config(a.bytes.as_slice(), &a.source),
        None => ParsedConfig {
            build_settings: CargoBuildSettings::empty(),
            target_settings: Vec::new(),
            warnings: Vec::new(),
        },
    }
}

/// The second wall-clock check, right after parsing: when it trips, the
/// inspection is assembled from the parsed settings; otherwise the parsed
/// config is handed back.
pub fn after_parse(
    cargo: &CargoInspection,
    rust: &RustSourceInspection,
    read: &ConfigRead,
    parsed: ParsedConfig,
    wall: Option<(u64, u64)>,
) -> (r: Result<CargoPlatformInspection, ParsedConfig>)
    ensures
        wall is None ==> r == Err::<CargoPlatformInspection, ParsedConfig>(parsed),
        wall matches Some(wc) ==> (r matches Ok(i) && derived_evidence_is(
            i,
            *cargo,
            *rust,
            parsed.build_settings,
            parsed.target_settings@,
        ) && sorted_unique_by(bench_views(i.benchmarks@), all_benches(*cargo, *rust), |x: BenchV| bench_key(x))
            && platform_warning_views(i.warnings@) == normalized_warnings(
            (platform_warning_views(parsed.warnings@) + platform_warning_views(read.warnings@)).push(
                wall_clock_warning(wc),
            ),
        ) && config_input_is(i.config_input, *read) && i.state == wall_clock_state(wc)),
{
    match wall {
        Some(wc) => {
            let ParsedConfig { build_settings, target_settings, warnings } = parsed;
            Ok(
                assemble_with_wall_clock_after_parse(
                    cargo,
                    rust,
                    read,
                    build_settings,
                    target_settings,
                    warnings,
                    wc,
                ),
            )
        },
        None => Err(parsed),
    }
}

/// Evidence derived after a timely parse, before the last wall-clock check.
pub struct PlatformDerived {
    /// `[build]` settings.
    pub build_settings: CargoBuildSettings,
    /// Target tables.
    pub target_settings: Vec<CargoTargetSettings>,
    /// WASM targets.
    pub wasm_targets: Vec<WasmTargetEvidence>,
    /// Native requirements.
    pub native_requirements: Vec<NativeRequirement>,
    /// Benchmarks.
    pub benchmarks: Vec<BenchmarkEvidence>,
    /// `no_std` evidence.
    pub no_std_evidence: NoStdEvidence,
    /// Target cfg constraints.
    pub target_cfg_constraints: Vec<TargetCfgConstraint>,
    /// Normalized parse and read warnings.
    pub warnings: Vec<CargoPlatformWarning>,
}

/// Whether `d` is the evidence derived from `cargo`, `rust` and the parsed
/// settings `build` and `targets` (the contract of [`derive_platform`],
/// without its warnings).
pub open spec fn platform_derived_is(
    d: PlatformDerived,
    cargo: CargoInspection,
    rust: RustSourceInspection,
    build: CargoBuildSettings,
    targets: Seq<CargoTargetSettings>,
) -> bool {
    &&& d.build_settings == build
    &&& d.target_settings@ == targets
    &&& wasm_targets_are(d.wasm_targets@, build, targets)
    &&& native_views(d.native_requirements@) == native_requirements(cargo, targets, build)
    &&& sorted_unique_by(bench_views(d.benchmarks@), all_benches(cargo, rust), |x: BenchV| bench_key(x))
    &&& no_std_is(d.no_std_evidence, rust)
    &&& target_cfg_are(d.target_cfg_constraints@, cargo, rust)
}

/// Derives all evidence from the parsed settings, with the parse and read
/// warnings normalized.
pub fn derive_platform(
    cargo: &CargoInspection,
    rust: &RustSourceInspection,
    read: &ConfigRead,
    parsed: ParsedConfig,
) -> (d: PlatformDerived)
    ensures
        d.build_settings == parsed.build_settings,
        d.target_settings@ == parsed.target_settings@,
        wasm_targets_are(d.wasm_targets@, parsed.build_settings, parsed.target_settings@),
        native_views(d.native_requirements@) == native_requirements(
            *cargo,
            parsed.target_settings@,
            parsed.build_settings,
        ),
        sorted_unique_by(bench_views(d.benchmarks@), all_benches(*cargo, *rust), |x: BenchV| bench_key(x)),
        no_std_is(d.no_std_evidence, *rust),
        target_cfg_are(d.target_cfg_constraints@, *cargo, *rust),
        platform_warning_views(d.warnings@) == normalized_warnings(
            platform_warning_views(parsed.warnings@) + platform_warning_views(read.warnings@),
        ),
        platform_derived_is(d, *cargo, *rust, parsed.build_settings, parsed.target_settings@),
{
    let ParsedConfig { build_settings, target_settings, warnings } = parsed;
    let mut all = warnings;
    append_warnings(&mut all, &read.warnings);
    sort_dedup_warnings(&mut all);
    let warnings = all;
    let wasm_targets = derive_wasm_targets(&build_settings, target_settings.as_slice());
    let native_requirements = derive_native_requirements(cargo, target_settings.as_slice(), &build_settings);
    let benchmarks = derive_benchmarks(cargo, rust);
    let no_std_evidence = derive_no_std(cargo, rust);
    let target_cfg_constraints = derive_target_cfg(cargo, rust);
    PlatformDerived {
        build_settings,
        target_settings,
        wasm_targets,
        native_requirements,
        benchmarks,
        no_std_evidence,
        target_cfg_constraints,
        warnings,
    }
}

/// The last wall-clock check, after deriving: when it trips, the
/// wall-clock warning joins the (re-normalized) warnings and becomes the
/// state; otherwise the state is the read's.
pub fn finish_platform(d: PlatformDerived, read: &ConfigRead, wall: Option<(u64, u64)>) -> (r: CargoPlatformInspection)
    ensures
        r.build_settings == d.build_settings,
        r.target_settings == d.target_settings,
        r.wasm_targets == d.wasm_targets,
        r.native_requirements == d.native_requirements,
        r.benchmarks == d.benchmarks,
        r.no_std_evidence == d.no_std_evidence,
        r.target_cfg_constraints == d.target_cfg_constraints,
        config_input_is(r.config_input, *read),
        wall is None ==> r.warnings == d.warnings && r.state == read.state,
        wall matches Some(wc) ==> platform_warning_views(r.warnings@) == normalized_warnings(
            platform_warning_views(d.warnings@).push(wall_clock_warning(wc)),
        ) && r.state == wall_clock_state(wc),
{
    let PlatformDerived {
        build_settings,
        target_settings,
        wasm_targets,
        native_requirements,
        benchmarks,
        no_std_evidence,
        target_cfg_constraints,
        warnings,
    } = d;
    let config_input = build_config_input(read);
    match wall {
        Some(wc) => {
            let mut all = warnings;
            let ghost prev = platform_warning_views(all@);
            all.push(CargoPlatformWarning::WallClock { max_millis: wc.0, observed_millis: wc.1 });
            assert(platform_warning_views(all@) =~= prev.push(wall_clock_warning(wc)));
            sort_dedup_warnings(&mut all);
    let warnings = all;
            CargoPlatformInspection {
                build_settings,
                target_settings,
                wasm_targets,
                native_requirements,
                benchmarks,
                no_std_evidence,
                target_cfg_constraints,
                warnings,
                config_input,
                state: SnapshotState::LimitExceeded {
                    limit: InspectionLimit::WallClock { max_millis: wc.0, observed_millis: wc.1 },
                },
            }
        },
        None => CargoPlatformInspection {
            build_settings,
            target_settings,
            wasm_targets,
            native_requirements,
            benchmarks,
            no_std_evidence,
            target_cfg_constraints,
            warnings,
            config_input,
            state: read.state,
        },
    }
}

/// A platform inspection finished from derived evidence is composed from the
/// derivation functions: its settings are the parsed ones, and its WASM
/// targets, native requirements, `no_std` evidence and target cfg
/// constraints are exactly what the derivations give for them, with its
/// benchmarks sorted, one per key, from all declared and conventional
/// benches; with or without a wall-clock stop.
pub proof fn lemma_platform_composed(
    d: PlatformDerived,
    r: CargoPlatformInspection,
    cargo: CargoInspection,
    rust: RustSourceInspection,
    build: CargoBuildSettings,
    targets: Seq<CargoTargetSettings>,
)
    requires
        platform_derived_is(d, cargo, rust, build, targets),
        r.build_settings == d.build_settings,
        r.target_settings == d.target_settings,
        r.wasm_targets == d.wasm_targets,
        r.native_requirements == d.native_requirements,
        r.benchmarks == d.benchmarks,
        r.no_std_evidence == d.no_std_evidence,
        r.target_cfg_constraints == d.target_cfg_constraints,
    ensures
        derived_evidence_is(r, cargo, rust, build, targets),
        sorted_unique_by(bench_views(r.benchmarks@), all_benches(cargo, rust), |x: BenchV| bench_key(x)),
{
}

/// A wall-clock stop as a state: the budget, and an observed time that is
/// nonzero and at or over it.
pub open spec fn is_wall_clock_stop(state: SnapshotState, max_wall_millis: u64) -> bool {
    exists|wc: (u64, u64)|
        wc.0 == max_wall_millis && wc.1 > 0 && wc.1 >= wc.0 && state == #[trigger] wall_clock_state(wc)
}

/// The Cargo platform inspection from a config read: the elapsed time is
/// read at three cooperative wall-clock checks (after the read, after
/// parsing, after deriving), and between them the accepted config is parsed
/// and the platform evidence derived. Whatever the clock says, the
/// benchmarks are all declared and conventional benches sorted one per key,
/// the `no_std` evidence and target cfg constraints are the ones derived
/// from the Cargo and Rust evidence, the warnings are normalized, the config
/// provenance is the read's, and the state is the read's or a wall-clock
/// stop.
///
/// # Errors
///
/// Returns [`DiscoveryError::InspectionFailure`] when the accepted config is
/// too large to parse and the first check did not stop the inspection.
pub fn inspect_platform_from_read<F: Fn() -> std::time::Duration>(
    cargo: &CargoInspection,
    rust: &RustSourceInspection,
    read: &ConfigRead,
    max_wall_millis: u64,
    elapsed: F,
) -> (r: DiscoveryResult<CargoPlatformInspection>)
    requires
        forall|u: ()| #[trigger] call_requires(elapsed, u),
    ensures
        (read.accepted matches Some(a) ==> a.bytes@.len() < usize::MAX) ==> r is Ok,
        r matches Err(e) ==> (e matches DiscoveryError::InspectionFailure(m) && m@ == "project config is too large"@),
        r is Err ==> (read.accepted matches Some(a) && a.bytes@.len() == usize::MAX),
        r matches Ok(p) ==> {
            &&& sorted_unique_by(bench_views(p.benchmarks@), all_benches(*cargo, *rust), |x: BenchV| bench_key(x))
            &&& no_std_is(p.no_std_evidence, *rust)
            &&& target_cfg_are(p.target_cfg_constraints@, *cargo, *rust)
            &&& derived_evidence_is(p, *cargo, *rust, p.build_settings, p.target_settings@)
            &&& config_input_is(p.config_input, *read)
            &&& exists|ws: Seq<PlatformWarningV>| platform_warning_views(p.warnings@) == #[trigger] normalized_warnings(ws)
            &&& (p.state == read.state || is_wall_clock_stop(p.state, max_wall_millis))
        },
{
    let first = wall_clock_exceeded(elapsed(), max_wall_millis);
    match after_config_read(cargo, rust, read, first) {
        Some(done) => {
            assert(is_wall_clock_stop(done.state, max_wall_millis)) by {
                assert(done.state == wall_clock_state(first->0));
            }
            return Ok(done);
        },
        None => {},
    }
    let too_large = match &read.accepted {
        Some(a) => a.bytes.len() == usize::MAX,
        None => false,
    };
    if too_large {
        return Err(DiscoveryError::InspectionFailure(String::from_str("project config is too large")));
    }
    let parsed = parse_accepted(read);
    let second = wall_clock_exceeded(elapsed(), max_wall_millis);
    let parsed = match after_parse(cargo, rust, read, parsed, second) {
        Ok(done) => {
            assert(is_wall_clock_stop(done.state, max_wall_millis)) by {
                assert(done.state == wall_clock_state(second->0));
            }
            return Ok(done);
        },
        Err(parsed) => parsed,
    };
    let ghost build = parsed.build_settings;
    let ghost targets = parsed.target_settings@;
    let derived = derive_platform(cargo, rust, read, parsed);
    let third = wall_clock_exceeded(elapsed(), max_wall_millis);
    let ghost d = derived;
    let p = finish_platform(derived, read, third);
    proof {
        lemma_platform_composed(d, p, *cargo, *rust, build, targets);
        if third is Some {
            assert(p.state == wall_clock_state(third->0));
        }
    }
    Ok(p)
}

} // verus!
