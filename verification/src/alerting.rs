//! Alert decisions: which alerts a set of sensor and structure assessments
//! calls for, and the per-key cooldown that keeps a repeated condition from
//! raising the same alert again within the cooldown window.
//!
//! The thresholds themselves are compared elsewhere; here each reading
//! arrives already banded (`Severity`) and every decision names the reading
//! and metric it came from, so the caller can attach measured values.
use vstd::prelude::*;
use std::collections::HashMap;
use crate::clock::{Timestamp, seconds_between, elapsed_seconds, read_clock};
use crate::models::AlertType;

verus! {

broadcast use vstd::std_specs::hash::group_hash_axioms;

/// How far a reading lies past its thresholds.
#[derive(Debug, Clone, Copy, PartialEq, Eq, Structural)]
pub enum Severity {
    Normal,
    Warning,
    Danger,
}

/// The measured quantity an alert is about.
#[derive(Debug, Clone, Copy, PartialEq, Eq, Structural)]
pub enum Metric {
    TiltTotal,
    StressVonMises,
    WindSpeed,
    GroundPressure,
    VibrationFreq,
    SafetyFactor,
    CurrentWindFactor,
    SecondOrderEffect,
}

impl Metric {
    /// The field name under which the metric is reported.
    pub open spec fn name_text(self) -> Seq<char> {
        match self {
            Metric::TiltTotal => "tilt_total"@,
            Metric::StressVonMises => "stress_von_mises"@,
            Metric::WindSpeed => "wind_speed_mps"@,
            Metric::GroundPressure => "ground_pressure"@,
            Metric::VibrationFreq => "vibration_freq"@,
            Metric::SafetyFactor => "safety_factor"@,
            Metric::CurrentWindFactor => "current_wind_factor"@,
            Metric::SecondOrderEffect => "second_order_effect"@,
        }
    }

    /// The field name under which the metric is reported.
    pub fn name(&self) -> (s: &'static str)
        ensures
            s@ == self.name_text(),
    {
        match self {
            Metric::TiltTotal => "tilt_total",
            Metric::StressVonMises => "stress_von_mises",
            Metric::WindSpeed => "wind_speed_mps",
            Metric::GroundPressure => "ground_pressure",
            Metric::VibrationFreq => "vibration_freq",
            Metric::SafetyFactor => "safety_factor",
            Metric::CurrentWindFactor => "current_wind_factor",
            Metric::SecondOrderEffect => "second_order_effect",
        }
    }
}

/// The condition a cooldown key tracks.
#[derive(Debug, Clone, Copy, PartialEq, Eq, Structural)]
pub enum KeyKind {
    TiltDanger,
    TiltWarn,
    StressDanger,
    StressWarn,
    WindDanger,
    WindWarn,
    GroundDanger,
    GroundWarn,
    VibExceed,
    Instability,
    WindLimit,
    SecondOrder,
}

impl KeyKind {
    /// The position of the kind in the list above.
    pub open spec fn index(self) -> u64 {
        match self {
            KeyKind::TiltDanger => 0,
            KeyKind::TiltWarn => 1,
            KeyKind::StressDanger => 2,
            KeyKind::StressWarn => 3,
            KeyKind::WindDanger => 4,
            KeyKind::WindWarn => 5,
            KeyKind::GroundDanger => 6,
            KeyKind::GroundWarn => 7,
            KeyKind::VibExceed => 8,
            KeyKind::Instability => 9,
            KeyKind::WindLimit => 10,
            KeyKind::SecondOrder => 11,
        }
    }
}

/// The cooldown key of a condition on a tower (and, for tilt and stress, a
/// layer; the other kinds pass layer 0): the kind in bits 40 and up, the
/// tower id in bits 8 to 39, the layer in bits 0 to 7.
pub open spec fn key_code(kind: KeyKind, tower_id: u32, layer_id: u8) -> u64 {
    (kind.index() << 40u64) | ((tower_id as u64) << 8u64) | (layer_id as u64)
}

/// The cooldown key of a condition on a tower and layer.
pub fn alert_key(kind: KeyKind, tower_id: u32, layer_id: u8) -> (k: u64)
    ensures
        k == key_code(kind, tower_id, layer_id),
{
    let idx: u64 = match kind {
        KeyKind::TiltDanger => 0,
        KeyKind::TiltWarn => 1,
        KeyKind::StressDanger => 2,
        KeyKind::StressWarn => 3,
        KeyKind::WindDanger => 4,
        KeyKind::WindWarn => 5,
        KeyKind::GroundDanger => 6,
        KeyKind::GroundWarn => 7,
        KeyKind::VibExceed => 8,
        KeyKind::Instability => 9,
        KeyKind::WindLimit => 10,
        KeyKind::SecondOrder => 11,
    };
    (idx << 40u64) | ((tower_id as u64) << 8u64) | (layer_id as u64)
}

/// Distinct conditions have distinct cooldown keys.
pub proof fn lemma_key_codes_distinct(
    k1: KeyKind,
    t1: u32,
    l1: u8,
    k2: KeyKind,
    t2: u32,
    l2: u8,
)
    ensures
        key_code(k1, t1, l1) == key_code(k2, t2, l2) ==> k1 == k2 && t1 == t2 && l1 == l2,
{
    let a = k1.index();
    let d = k2.index();
    let b = t1 as u64;
    let e = t2 as u64;
    let c = l1 as u64;
    let f = l2 as u64;
    assert(((a << 40u64) | (b << 8u64) | c) == ((d << 40u64) | (e << 8u64) | f) ==> a == d && b
        == e && c == f) by (bit_vector)
        requires
            a < 16,
            d < 16,
            b < 0x1_0000_0000,
            e < 0x1_0000_0000,
            c < 256,
            f < 256,
    ;
}

/// One alert the assessments call for, and where it came from: `source` is
/// the index of the sensor reading (0 for structure alerts), `metric` and
/// `severity` say which measurement and which threshold band triggered it.
#[derive(Debug, Clone, Copy, PartialEq, Eq, Structural)]
pub struct AlertDecision {
    pub source: usize,
    pub metric: Metric,
    pub severity: Severity,
    pub alert_type: AlertType,
    pub alert_level: u8,
    pub layer_id: u8,
    pub key: u64,
}

/// One layer's sensor reading, banded against the alert thresholds.
#[derive(Debug, Clone, Copy, PartialEq, Eq, Structural)]
pub struct SensorAssessment {
    pub layer_id: u8,
    pub tilt: Severity,
    pub stress: Severity,
    pub wind: Severity,
    pub ground: Severity,
    /// Vibration near the natural frequency with an amplitude past the
    /// danger amplitude.
    pub resonance: bool,
}

/// A structure analysis, banded against the alert thresholds.
#[derive(Debug, Clone, Copy, PartialEq, Eq, Structural)]
pub struct StructureAssessment {
    pub tower_id: u32,
    pub is_stable: u8,
    pub max_stress_layer: u8,
    pub max_tilt_layer: u8,
    /// The current wind factor is at or past the wind danger ratio.
    pub wind_factor_exceeded: bool,
    /// The second-order effect is at or past 1.5.
    pub second_order_exceeded: bool,
}

/// The decision a banded measurement calls for: nothing when normal, else
/// one decision at the danger or the warning level.
pub open spec fn banded(
    tower_id: u32,
    source: int,
    band: Severity,
    metric: Metric,
    alert_type: AlertType,
    danger_level: u8,
    warning_level: u8,
    danger_kind: KeyKind,
    warning_kind: KeyKind,
    key_layer: u8,
    alert_layer: u8,
) -> Seq<AlertDecision> {
    match band {
        Severity::Danger => seq![
            AlertDecision {
                source: source as usize,
                metric,
                severity: Severity::Danger,
                alert_type,
                alert_level: danger_level,
                layer_id: alert_layer,
                key: key_code(danger_kind, tower_id, key_layer),
            },
        ],
        Severity::Warning => seq![
            AlertDecision {
                source: source as usize,
                metric,
                severity: Severity::Warning,
                alert_type,
                alert_level: warning_level,
                layer_id: alert_layer,
                key: key_code(warning_kind, tower_id, key_layer),
            },
        ],
        Severity::Normal => Seq::empty(),
    }
}

/// The decisions one reading calls for, in the order tilt, stress, wind,
/// ground, vibration. Tilt and stress are keyed per layer; wind, ground and
/// vibration per tower; ground alerts are reported on layer 1.
pub open spec fn reading_candidates(tower_id: u32, source: int, r: SensorAssessment) -> Seq<
    AlertDecision,
> {
    banded(
        tower_id,
        source,
        r.tilt,
        Metric::TiltTotal,
        AlertType::TiltExceed,
        3,
        1,
        KeyKind::TiltDanger,
        KeyKind::TiltWarn,
        r.layer_id,
        r.layer_id,
    ) + banded(
        tower_id,
        source,
        r.stress,
        Metric::StressVonMises,
        AlertType::StressCritical,
        3,
        1,
        KeyKind::StressDanger,
        KeyKind::StressWarn,
        r.layer_id,
        r.layer_id,
    ) + banded(
        tower_id,
        source,
        r.wind,
        Metric::WindSpeed,
        AlertType::WindOverload,
        2,
        1,
        KeyKind::WindDanger,
        KeyKind::WindWarn,
        0,
        r.layer_id,
    ) + banded(
        tower_id,
        source,
        r.ground,
        Metric::GroundPressure,
        AlertType::GroundFailure,
        3,
        1,
        KeyKind::GroundDanger,
        KeyKind::GroundWarn,
        0,
        1,
    ) + (if r.resonance {
        seq![
            AlertDecision {
                source: source as usize,
                metric: Metric::VibrationFreq,
                severity: Severity::Danger,
                alert_type: AlertType::VibrationExceed,
                alert_level: 2,
                layer_id: r.layer_id,
                key: key_code(KeyKind::VibExceed, tower_id, 0),
            },
        ]
    } else {
        Seq::empty()
    })
}

/// The decisions a batch of readings calls for, reading by reading.
pub open spec fn sensor_candidates(tower_id: u32, readings: Seq<SensorAssessment>) -> Seq<
    AlertDecision,
>
    decreases readings.len(),
{
    if readings.len() == 0 {
        Seq::empty()
    } else {
        sensor_candidates(tower_id, readings.drop_last()) + reading_candidates(
            tower_id,
            readings.len() - 1,
            readings.last(),
        )
    }
}

/// The decisions a structure analysis calls for: instability when the
/// structure is not stable, the wind limit, and the second-order effect.
pub open spec fn structure_candidates(a: StructureAssessment) -> Seq<AlertDecision> {
    (if a.is_stable == 0 {
        seq![
            AlertDecision {
                source: 0,
                metric: Metric::SafetyFactor,
                severity: Severity::Danger,
                alert_type: AlertType::StructureInstability,
                alert_level: 3,
                layer_id: a.max_stress_layer,
                key: key_code(KeyKind::Instability, a.tower_id, 0),
            },
        ]
    } else {
        Seq::empty()
    }) + (if a.wind_factor_exceeded {
        seq![
            AlertDecision {
                source: 0,
                metric: Metric::CurrentWindFactor,
                severity: Severity::Danger,
                alert_type: AlertType::WindOverload,
                alert_level: 3,
                layer_id: a.max_tilt_layer,
                key: key_code(KeyKind::WindLimit, a.tower_id, 0),
            },
        ]
    } else {
        Seq::empty()
    }) + (if a.second_order_exceeded {
        seq![
            AlertDecision {
                source: 0,
                metric: Metric::SecondOrderEffect,
                severity: Severity::Danger,
                alert_type: AlertType::StructureInstability,
                alert_level: 2,
                layer_id: a.max_stress_layer,
                key: key_code(KeyKind::SecondOrder, a.tower_id, 0),
            },
        ]
    } else {
        Seq::empty()
    })
}

/// Whether the condition `key` may raise an alert at `now`: it never has, or
/// its last alert is at least `cooldown` whole seconds old.
pub open spec fn cooled_down(
    table: Map<u64, Timestamp>,
    key: u64,
    now: Timestamp,
    cooldown: int,
) -> bool {
    !table.contains_key(key) || seconds_between(now, table[key]) >= cooldown
}

/// Checks the candidates in order against the cooldown table, the `i`-th at
/// instant `times[i]`: each one that may alert is kept and records its
/// instant; the others leave the table as it is. Gives the final table and
/// the kept decisions.
pub open spec fn run_checks(
    table: Map<u64, Timestamp>,
    cands: Seq<AlertDecision>,
    times: Seq<Timestamp>,
    cooldown: int,
) -> (Map<u64, Timestamp>, Seq<AlertDecision>)
    decreases cands.len(),
{
    if cands.len() == 0 {
        (table, Seq::empty())
    } else {
        let prev = run_checks(table, cands.drop_last(), times.take(cands.len() - 1), cooldown);
        let c = cands.last();
        let now = times[cands.len() - 1];
        if cooled_down(prev.0, c.key, now, cooldown) {
            (prev.0.insert(c.key, now), prev.1.push(c))
        } else {
            prev
        }
    }
}

/// Decisions for one banded measurement, appended to `out`.
fn push_banded(
    out: &mut Vec<AlertDecision>,
    tower_id: u32,
    source: usize,
    band: Severity,
    metric: Metric,
    alert_type: AlertType,
    danger_level: u8,
    warning_level: u8,
    danger_kind: KeyKind,
    warning_kind: KeyKind,
    key_layer: u8,
    alert_layer: u8,
)
    ensures
        final(out)@ == old(out)@ + banded(
            tower_id,
            source as int,
            band,
            metric,
            alert_type,
            danger_level,
            warning_level,
            danger_kind,
            warning_kind,
            key_layer,
            alert_layer,
        ),
{
    match band {
        Severity::Danger => {
            let key = alert_key(danger_kind, tower_id, key_layer);
            out.push(
                AlertDecision {
                    source,
                    metric,
                    severity: Severity::Danger,
                    alert_type,
                    alert_level: danger_level,
                    layer_id: alert_layer,
                    key,
                },
            );
        },
        Severity::Warning => {
            let key = alert_key(warning_kind, tower_id, key_layer);
            out.push(
                AlertDecision {
                    source,
                    metric,
                    severity: Severity::Warning,
                    alert_type,
                    alert_level: warning_level,
                    layer_id: alert_layer,
                    key,
                },
            );
        },
        Severity::Normal => {
            assert(old(out)@ + Seq::<AlertDecision>::empty() =~= old(out)@);
        },
    }
}

/// The decisions one reading calls for, appended to `out`.
#[verifier::rlimit(40)]
fn push_reading_candidates(
    out: &mut Vec<AlertDecision>,
    tower_id: u32,
    source: usize,
    r: SensorAssessment,
)
    ensures
        final(out)@ == old(out)@ + reading_candidates(tower_id, source as int, r),
{
    let ghost s0 = out@;
    let ghost a = banded(tower_id, source as int, r.tilt, Metric::TiltTotal, AlertType::TiltExceed,
        3, 1, KeyKind::TiltDanger, KeyKind::TiltWarn, r.layer_id, r.layer_id);
    let ghost b = banded(tower_id, source as int, r.stress, Metric::StressVonMises,
        AlertType::StressCritical, 3, 1, KeyKind::StressDanger, KeyKind::StressWarn, r.layer_id,
        r.layer_id);
    let ghost c = banded(tower_id, source as int, r.wind, Metric::WindSpeed,
        AlertType::WindOverload, 2, 1, KeyKind::WindDanger, KeyKind::WindWarn, 0, r.layer_id);
    let ghost d = banded(tower_id, source as int, r.ground, Metric::GroundPressure,
        AlertType::GroundFailure, 3, 1, KeyKind::GroundDanger, KeyKind::GroundWarn, 0, 1);
    let ghost e = if r.resonance {
        seq![
            AlertDecision {
                source: source,
                metric: Metric::VibrationFreq,
                severity: Severity::Danger,
                alert_type: AlertType::VibrationExceed,
                alert_level: 2,
                layer_id: r.layer_id,
                key: key_code(KeyKind::VibExceed, tower_id, 0),
            },
        ]
    } else {
        Seq::<AlertDecision>::empty()
    };
    push_banded(out, tower_id, source, r.tilt, Metric::TiltTotal, AlertType::TiltExceed, 3, 1,
        KeyKind::TiltDanger, KeyKind::TiltWarn, r.layer_id, r.layer_id);
    push_banded(out, tower_id, source, r.stress, Metric::StressVonMises, AlertType::StressCritical,
        3, 1, KeyKind::StressDanger, KeyKind::StressWarn, r.layer_id, r.layer_id);
    push_banded(out, tower_id, source, r.wind, Metric::WindSpeed, AlertType::WindOverload, 2, 1,
        KeyKind::WindDanger, KeyKind::WindWarn, 0, r.layer_id);
    push_banded(out, tower_id, source, r.ground, Metric::GroundPressure, AlertType::GroundFailure,
        3, 1, KeyKind::GroundDanger, KeyKind::GroundWarn, 0, 1);
    let ghost s4 = out@;
    assert(s4 == s0 + a + b + c + d);
    if r.resonance {
        let key = alert_key(KeyKind::VibExceed, tower_id, 0);
        out.push(
            AlertDecision {
                source,
                metric: Metric::VibrationFreq,
                severity: Severity::Danger,
                alert_type: AlertType::VibrationExceed,
                alert_level: 2,
                layer_id: r.layer_id,
                key,
            },
        );
    }
    assert(out@ =~= s4 + e);
    assert(reading_candidates(tower_id, source as int, r) == a + b + c + d + e);
    assert(s0 + a + b + c + d + e =~= s0 + (a + b + c + d + e));
}

/// The decisions a batch of readings calls for, before any cooldown.
pub fn sensor_alert_candidates(tower_id: u32, readings: &Vec<SensorAssessment>) -> (cands: Vec<
    AlertDecision,
>)
    ensures
        cands@ == sensor_candidates(tower_id, readings@),
{
    let mut cands: Vec<AlertDecision> = Vec::new();
    let n = readings.len();
    let mut i: usize = 0;
    while i < n
        invariant
            n == readings@.len(),
            i <= n,
            cands@ == sensor_candidates(tower_id, readings@.take(i as int)),
        decreases n - i,
    {
        proof {
            assert(readings@.take(i + 1).drop_last() =~= readings@.take(i as int));
        }
        push_reading_candidates(&mut cands, tower_id, i, readings[i]);
        i = i + 1;
    }
    proof {
        assert(readings@.take(n as int) =~= readings@);
    }
    cands
}

/// The decisions a structure analysis calls for, before any cooldown.
pub fn structure_alert_candidates(a: &StructureAssessment) -> (cands: Vec<AlertDecision>)
    ensures
        cands@ == structure_candidates(*a),
{
    let mut cands: Vec<AlertDecision> = Vec::new();
    if a.is_stable == 0 {
        let key = alert_key(KeyKind::Instability, a.tower_id, 0);
        cands.push(
            AlertDecision {
                source: 0,
                metric: Metric::SafetyFactor,
                severity: Severity::Danger,
                alert_type: AlertType::StructureInstability,
                alert_level: 3,
                layer_id: a.max_stress_layer,
                key,
            },
        );
    }
    if a.wind_factor_exceeded {
        let key = alert_key(KeyKind::WindLimit, a.tower_id, 0);
        cands.push(
            AlertDecision {
                source: 0,
                metric: Metric::CurrentWindFactor,
                severity: Severity::Danger,
                alert_type: AlertType::WindOverload,
                alert_level: 3,
                layer_id: a.max_tilt_layer,
                key,
            },
        );
    }
    if a.second_order_exceeded {
        let key = alert_key(KeyKind::SecondOrder, a.tower_id, 0);
        cands.push(
            AlertDecision {
                source: 0,
                metric: Metric::SecondOrderEffect,
                severity: Severity::Danger,
                alert_type: AlertType::StructureInstability,
                alert_level: 2,
                layer_id: a.max_stress_layer,
                key,
            },
        );
    }
    proof {
        assert(cands@ =~= structure_candidates(*a));
    }
    cands
}


/// Once a condition raises an alert at `t1`, it stays quiet at any later
/// check `t2` that is less than the cooldown after `t1`.
pub proof fn lemma_fired_key_rests(
    table: Map<u64, Timestamp>,
    key: u64,
    t1: Timestamp,
    t2: Timestamp,
    cooldown: int,
)
    requires
        seconds_between(t2, t1) < cooldown,
    ensures
        !cooled_down(table.insert(key, t1), key, t2, cooldown),
{
}

/// The cooldown check keeps only candidates, in their order: every kept
/// decision is one of the candidates, and no more are kept than offered.
pub proof fn lemma_run_keeps_candidates(
    table: Map<u64, Timestamp>,
    cands: Seq<AlertDecision>,
    times: Seq<Timestamp>,
    cooldown: int,
)
    ensures
        run_checks(table, cands, times, cooldown).1.len() <= cands.len(),
        forall|j: int|
            0 <= j < run_checks(table, cands, times, cooldown).1.len() ==> cands.contains(
                #[trigger] run_checks(table, cands, times, cooldown).1[j],
            ),
    decreases cands.len(),
{
    if cands.len() > 0 {
        let prefix = cands.drop_last();
        lemma_run_keeps_candidates(table, prefix, times.take(cands.len() - 1), cooldown);
        let prev = run_checks(table, prefix, times.take(cands.len() - 1), cooldown);
        let out = run_checks(table, cands, times, cooldown).1;
        assert forall|j: int| 0 <= j < out.len() implies cands.contains(#[trigger] out[j]) by {
            if j < prev.1.len() {
                assert(prefix.contains(prev.1[j]));
                let k = choose|k: int| 0 <= k < prefix.len() && prefix[k] == prev.1[j];
                assert(cands[k] == out[j]);
            } else {
                assert(cands[cands.len() - 1] == out[j]);
            }
        }
    }
}

/// The cooldown check touches no condition other than the candidates':
/// any other key keeps its entry (or its absence) in the table.
pub proof fn lemma_run_leaves_other_keys(
    table: Map<u64, Timestamp>,
    cands: Seq<AlertDecision>,
    times: Seq<Timestamp>,
    cooldown: int,
    key: u64,
)
    requires
        forall|i: int| 0 <= i < cands.len() ==> (#[trigger] cands[i]).key != key,
    ensures
        run_checks(table, cands, times, cooldown).0.contains_key(key) == table.contains_key(key),
        table.contains_key(key) ==> run_checks(table, cands, times, cooldown).0[key] == table[key],
    decreases cands.len(),
{
    if cands.len() > 0 {
        let prefix = cands.drop_last();
        assert forall|i: int| 0 <= i < prefix.len() implies (#[trigger] prefix[i]).key != key by {
            assert(prefix[i] == cands[i]);
        }
        lemma_run_leaves_other_keys(table, prefix, times.take(cands.len() - 1), cooldown, key);
        assert(cands[cands.len() - 1].key != key);
    }
}

/// After the cooldown check, the table holds exactly the keys it held
/// before and the keys of the kept decisions.
proof fn lemma_run_domain(
    table: Map<u64, Timestamp>,
    cands: Seq<AlertDecision>,
    times: Seq<Timestamp>,
    cooldown: int,
    key: u64,
)
    ensures
        run_checks(table, cands, times, cooldown).0.contains_key(key) ==> table.contains_key(key)
            || exists|i: int| 0 <= i < cands.len() && (#[trigger] cands[i]).key == key,
    decreases cands.len(),
{
    if cands.len() > 0 {
        let prefix = cands.drop_last();
        lemma_run_domain(table, prefix, times.take(cands.len() - 1), cooldown, key);
        if exists|i: int| 0 <= i < prefix.len() && (#[trigger] prefix[i]).key == key {
            let i = choose|i: int| 0 <= i < prefix.len() && (#[trigger] prefix[i]).key == key;
            assert(cands[i].key == key);
        }
    }
}

/// Candidates whose conditions have never alerted and whose keys are all
/// different all raise their alerts, whenever each is checked.
pub proof fn lemma_unseen_distinct_all_fire(
    table: Map<u64, Timestamp>,
    cands: Seq<AlertDecision>,
    times: Seq<Timestamp>,
    cooldown: int,
)
    requires
        forall|i: int| 0 <= i < cands.len() ==> !table.contains_key((#[trigger] cands[i]).key),
        forall|i: int, j: int|
            0 <= i < cands.len() && 0 <= j < cands.len() && i != j ==> (#[trigger] cands[i]).key
                != (#[trigger] cands[j]).key,
    ensures
        run_checks(table, cands, times, cooldown).1 == cands,
    decreases cands.len(),
{
    if cands.len() > 0 {
        let prefix = cands.drop_last();
        let ptimes = times.take(cands.len() - 1);
        assert forall|i: int| 0 <= i < prefix.len() implies !table.contains_key(
            (#[trigger] prefix[i]).key,
        ) by {
            assert(prefix[i] == cands[i]);
        }
        assert forall|i: int, j: int|
            0 <= i < prefix.len() && 0 <= j < prefix.len() && i != j implies (#[trigger] prefix[i]).key
                != (#[trigger] prefix[j]).key by {
            assert(prefix[i] == cands[i]);
            assert(prefix[j] == cands[j]);
        }
        lemma_unseen_distinct_all_fire(table, prefix, ptimes, cooldown);
        let last = cands[cands.len() - 1];
        lemma_run_domain(table, prefix, ptimes, cooldown, last.key);
        if exists|i: int| 0 <= i < prefix.len() && (#[trigger] prefix[i]).key == last.key {
            let i = choose|i: int| 0 <= i < prefix.len() && (#[trigger] prefix[i]).key == last.key;
            assert(cands[i].key == cands[cands.len() - 1].key);
        }
        assert(prefix.push(last) =~= cands);
    }
}

/// A manager that has raised no alert yet raises every alert a structure
/// analysis calls for.
pub proof fn lemma_first_structure_check_raises_all(
    a: StructureAssessment,
    times: Seq<Timestamp>,
    cooldown: int,
)
    ensures
        run_checks(Map::empty(), structure_candidates(a), times, cooldown).1
            == structure_candidates(a),
{
    let cands = structure_candidates(a);
    lemma_key_codes_distinct(KeyKind::Instability, a.tower_id, 0, KeyKind::WindLimit, a.tower_id, 0);
    lemma_key_codes_distinct(KeyKind::Instability, a.tower_id, 0, KeyKind::SecondOrder, a.tower_id, 0);
    lemma_key_codes_distinct(KeyKind::WindLimit, a.tower_id, 0, KeyKind::SecondOrder, a.tower_id, 0);
    assert forall|i: int, j: int|
        0 <= i < cands.len() && 0 <= j < cands.len() && i != j implies (#[trigger] cands[i]).key
            != (#[trigger] cands[j]).key by {
    }
    lemma_unseen_distinct_all_fire(Map::empty(), cands, times, cooldown);
}

/// No two decisions in `s` share a cooldown key.
pub open spec fn distinct_keys(s: Seq<AlertDecision>) -> bool {
    forall|i: int, j: int|
        0 <= i < s.len() && 0 <= j < s.len() && i != j ==> (#[trigger] s[i]).key != (#[trigger] s[j]).key
}

/// Every decision in `s` is keyed by a condition kind between `lo` and `hi`.
spec fn kinds_within(s: Seq<AlertDecision>, lo: u64, hi: u64) -> bool {
    forall|i: int| 0 <= i < s.len() ==> lo <= (#[trigger] s[i]).key >> 40u64 <= hi
}

/// The kind of a key sits in its top bits.
proof fn lemma_key_kind(kind: KeyKind, tower_id: u32, layer_id: u8)
    ensures
        key_code(kind, tower_id, layer_id) >> 40u64 == kind.index(),
{
    let a = kind.index();
    let b = tower_id as u64;
    let c = layer_id as u64;
    assert((((a << 40u64) | (b << 8u64) | c) >> 40u64) == a) by (bit_vector)
        requires
            a < 16,
            b < 0x1_0000_0000,
            c < 256,
    ;
}

/// A banded measurement calls for at most one decision, keyed by one of its
/// two kinds.
proof fn lemma_banded_shape(
    tower_id: u32,
    source: int,
    band: Severity,
    metric: Metric,
    alert_type: AlertType,
    danger_level: u8,
    warning_level: u8,
    danger_kind: KeyKind,
    warning_kind: KeyKind,
    key_layer: u8,
    alert_layer: u8,
    lo: u64,
    hi: u64,
)
    requires
        lo <= danger_kind.index() <= hi,
        lo <= warning_kind.index() <= hi,
    ensures
        ({
            let s = banded(tower_id, source, band, metric, alert_type, danger_level,
                warning_level, danger_kind, warning_kind, key_layer, alert_layer);
            s.len() <= 1 && kinds_within(s, lo, hi) && distinct_keys(s)
        }),
{
    lemma_key_kind(danger_kind, tower_id, key_layer);
    lemma_key_kind(warning_kind, tower_id, key_layer);
}

/// Two key-distinct runs whose kinds lie in separate ranges join into one
/// key-distinct run.
proof fn lemma_join_distinct(s1: Seq<AlertDecision>, s2: Seq<AlertDecision>, lo: u64, mid: u64, hi: u64)
    requires
        lo <= mid < hi,
        distinct_keys(s1),
        distinct_keys(s2),
        kinds_within(s1, lo, mid),
        kinds_within(s2, (mid + 1) as u64, hi),
    ensures
        distinct_keys(s1 + s2),
        kinds_within(s1 + s2, lo, hi),
{
    let s = s1 + s2;
    assert forall|i: int, j: int|
        0 <= i < s.len() && 0 <= j < s.len() && i != j implies (#[trigger] s[i]).key
            != (#[trigger] s[j]).key by {
        if i < s1.len() && j < s1.len() {
            assert(s[i] == s1[i] && s[j] == s1[j]);
        } else if i >= s1.len() && j >= s1.len() {
            assert(s[i] == s2[i - s1.len()] && s[j] == s2[j - s1.len()]);
        } else if i < s1.len() {
            assert(s[i] == s1[i] && s[j] == s2[j - s1.len()]);
        } else {
            assert(s[j] == s1[j] && s[i] == s2[i - s1.len()]);
        }
    }
    assert forall|i: int| 0 <= i < s.len() implies lo <= (#[trigger] s[i]).key >> 40u64 <= hi by {
        if i < s1.len() {
            assert(s[i] == s1[i]);
        } else {
            assert(s[i] == s2[i - s1.len()]);
        }
    }
}

/// A manager that has raised no alert yet raises every alert a single
/// sensor reading calls for.
pub proof fn lemma_first_reading_check_raises_all(
    tower_id: u32,
    source: int,
    r: SensorAssessment,
    times: Seq<Timestamp>,
    cooldown: int,
)
    ensures
        run_checks(Map::empty(), reading_candidates(tower_id, source, r), times, cooldown).1
            == reading_candidates(tower_id, source, r),
{
    let a = banded(tower_id, source, r.tilt, Metric::TiltTotal, AlertType::TiltExceed, 3, 1,
        KeyKind::TiltDanger, KeyKind::TiltWarn, r.layer_id, r.layer_id);
    let b = banded(tower_id, source, r.stress, Metric::StressVonMises, AlertType::StressCritical,
        3, 1, KeyKind::StressDanger, KeyKind::StressWarn, r.layer_id, r.layer_id);
    let c = banded(tower_id, source, r.wind, Metric::WindSpeed, AlertType::WindOverload, 2, 1,
        KeyKind::WindDanger, KeyKind::WindWarn, 0, r.layer_id);
    let d = banded(tower_id, source, r.ground, Metric::GroundPressure, AlertType::GroundFailure, 3,
        1, KeyKind::GroundDanger, KeyKind::GroundWarn, 0, 1);
    let e = if r.resonance {
        seq![
            AlertDecision {
                source: source as usize,
                metric: Metric::VibrationFreq,
                severity: Severity::Danger,
                alert_type: AlertType::VibrationExceed,
                alert_level: 2,
                layer_id: r.layer_id,
                key: key_code(KeyKind::VibExceed, tower_id, 0),
            },
        ]
    } else {
        Seq::<AlertDecision>::empty()
    };
    lemma_banded_shape(tower_id, source, r.tilt, Metric::TiltTotal, AlertType::TiltExceed, 3, 1,
        KeyKind::TiltDanger, KeyKind::TiltWarn, r.layer_id, r.layer_id, 0, 1);
    lemma_banded_shape(tower_id, source, r.stress, Metric::StressVonMises,
        AlertType::StressCritical, 3, 1, KeyKind::StressDanger, KeyKind::StressWarn, r.layer_id,
        r.layer_id, 2, 3);
    lemma_banded_shape(tower_id, source, r.wind, Metric::WindSpeed, AlertType::WindOverload, 2, 1,
        KeyKind::WindDanger, KeyKind::WindWarn, 0, r.layer_id, 4, 5);
    lemma_banded_shape(tower_id, source, r.ground, Metric::GroundPressure,
        AlertType::GroundFailure, 3, 1, KeyKind::GroundDanger, KeyKind::GroundWarn, 0, 1, 6, 7);
    lemma_key_kind(KeyKind::VibExceed, tower_id, 0);
    assert(kinds_within(e, 8, 8) && distinct_keys(e));
    lemma_join_distinct(a, b, 0, 1, 3);
    lemma_join_distinct(a + b, c, 0, 3, 5);
    lemma_join_distinct(a + b + c, d, 0, 5, 7);
    lemma_join_distinct(a + b + c + d, e, 0, 7, 8);
    let cands = reading_candidates(tower_id, source, r);
    assert(cands == a + b + c + d + e);
    lemma_unseen_distinct_all_fire(Map::empty(), cands, times, cooldown);
}

/// Whether `key`'s entry in `table` is one of the instants in `times`.
pub open spec fn stamped_from(table: Map<u64, Timestamp>, key: u64, times: Seq<Timestamp>) -> bool {
    exists|j: int| 0 <= j < times.len() && table[key] == #[trigger] times[j]
}

/// Run from an empty table, the cooldown check leaves every candidate's key
/// in the table, and every entry of the table is one of the check instants.
proof fn lemma_run_from_empty_stamps(
    cands: Seq<AlertDecision>,
    times: Seq<Timestamp>,
    cooldown: int,
)
    requires
        times.len() == cands.len(),
    ensures
        forall|i: int|
            0 <= i < cands.len() ==> run_checks(Map::empty(), cands, times, cooldown).0.contains_key(
                (#[trigger] cands[i]).key,
            ),
        forall|k: u64|
            #[trigger] run_checks(Map::empty(), cands, times, cooldown).0.contains_key(k)
                ==> stamped_from(run_checks(Map::empty(), cands, times, cooldown).0, k, times),
    decreases cands.len(),
{
    if cands.len() > 0 {
        let n = cands.len() - 1;
        let prefix = cands.drop_last();
        let ptimes = times.take(n);
        lemma_run_from_empty_stamps(prefix, ptimes, cooldown);
        let prev = run_checks(Map::empty(), prefix, ptimes, cooldown).0;
        let table = run_checks(Map::empty(), cands, times, cooldown).0;
        let c = cands[n];
        let now = times[n];
        assert forall|k: u64| #[trigger] prev.contains_key(k) implies stamped_from(prev, k, times) by {
            assert(stamped_from(prev, k, ptimes));
            let j = choose|j: int| 0 <= j < ptimes.len() && prev[k] == #[trigger] ptimes[j];
            assert(ptimes[j] == times[j]);
        }
        assert forall|i: int| 0 <= i < cands.len() implies table.contains_key(
            (#[trigger] cands[i]).key,
        ) by {
            if i < n {
                assert(prefix[i] == cands[i]);
            }
        }
        assert forall|k: u64| #[trigger] table.contains_key(k) implies stamped_from(table, k, times) by {
            if cooled_down(prev, c.key, now, cooldown) && k == c.key {
                assert(table[k] == times[n]);
            }
        }
    }
}

/// Once every candidate's key holds one of the instants `times1`, and every
/// later check instant is less than the cooldown after each of them, the
/// cooldown check raises nothing and leaves the table as it is.
proof fn lemma_run_all_resting(
    table: Map<u64, Timestamp>,
    cands: Seq<AlertDecision>,
    times1: Seq<Timestamp>,
    times2: Seq<Timestamp>,
    cooldown: int,
)
    requires
        times2.len() == cands.len(),
        forall|i: int| 0 <= i < cands.len() ==> table.contains_key((#[trigger] cands[i]).key),
        forall|i: int|
            0 <= i < cands.len() ==> stamped_from(table, (#[trigger] cands[i]).key, times1),
        forall|j: int, k: int|
            0 <= j < times1.len() && 0 <= k < times2.len() ==> seconds_between(
                #[trigger] times2[k],
                #[trigger] times1[j],
            ) < cooldown,
    ensures
        run_checks(table, cands, times2, cooldown) == (table, Seq::<AlertDecision>::empty()),
    decreases cands.len(),
{
    if cands.len() > 0 {
        let n = cands.len() - 1;
        let prefix = cands.drop_last();
        let ptimes = times2.take(n);
        assert forall|i: int| 0 <= i < prefix.len() implies table.contains_key(
            (#[trigger] prefix[i]).key,
        ) by {
            assert(prefix[i] == cands[i]);
        }
        assert forall|i: int| 0 <= i < prefix.len() implies stamped_from(
            table,
            (#[trigger] prefix[i]).key,
            times1,
        ) by {
            assert(prefix[i] == cands[i]);
        }
        assert forall|j: int, k: int|
            0 <= j < times1.len() && 0 <= k < ptimes.len() implies seconds_between(
            #[trigger] ptimes[k],
            #[trigger] times1[j],
        ) < cooldown by {
            assert(ptimes[k] == times2[k]);
        }
        lemma_run_all_resting(table, prefix, times1, ptimes, cooldown);
        let c = cands[n];
        assert(stamped_from(table, c.key, times1));
        let j = choose|j: int| 0 <= j < times1.len() && table[c.key] == #[trigger] times1[j];
        assert(seconds_between(times2[n], times1[j]) < cooldown);
        assert(!cooled_down(table, c.key, times2[n], cooldown));
    }
}

/// A second check of the same candidates on a manager that started with no
/// alerts raises nothing, when each instant of the second check is less
/// than the cooldown after each instant of the first: every condition the
/// first check saw was stamped during it and is still resting.
pub proof fn lemma_repeat_check_within_cooldown_is_quiet(
    cands: Seq<AlertDecision>,
    times1: Seq<Timestamp>,
    times2: Seq<Timestamp>,
    cooldown: int,
)
    requires
        times1.len() == cands.len(),
        times2.len() == cands.len(),
        forall|j: int, k: int|
            0 <= j < times1.len() && 0 <= k < times2.len() ==> seconds_between(
                #[trigger] times2[k],
                #[trigger] times1[j],
            ) < cooldown,
    ensures
        run_checks(run_checks(Map::empty(), cands, times1, cooldown).0, cands, times2, cooldown).1
            == Seq::<AlertDecision>::empty(),
{
    lemma_run_from_empty_stamps(cands, times1, cooldown);
    let table = run_checks(Map::empty(), cands, times1, cooldown).0;
    assert forall|i: int| 0 <= i < cands.len() implies stamped_from(
        table,
        (#[trigger] cands[i]).key,
        times1,
    ) by {
        assert(table.contains_key(cands[i].key));
    }
    lemma_run_all_resting(table, cands, times1, times2, cooldown);
}

/// Within one cooldown check whose instants all lie less than the cooldown
/// apart, no condition raises twice: the kept decisions have distinct keys
/// (so a tower-wide condition seen in several readings alerts at most
/// once), and each kept key holds one of the check instants.
pub proof fn lemma_one_alert_per_condition_per_check(
    table: Map<u64, Timestamp>,
    cands: Seq<AlertDecision>,
    times: Seq<Timestamp>,
    cooldown: int,
)
    requires
        times.len() == cands.len(),
        forall|j: int, k: int|
            0 <= j < k < times.len() ==> seconds_between(#[trigger] times[k], #[trigger] times[j])
                < cooldown,
    ensures
        distinct_keys(run_checks(table, cands, times, cooldown).1),
        forall|i: int|
            0 <= i < run_checks(table, cands, times, cooldown).1.len() ==> {
                &&& run_checks(table, cands, times, cooldown).0.contains_key(
                    (#[trigger] run_checks(table, cands, times, cooldown).1[i]).key,
                )
                &&& stamped_from(
                    run_checks(table, cands, times, cooldown).0,
                    run_checks(table, cands, times, cooldown).1[i].key,
                    times,
                )
            },
    decreases cands.len(),
{
    if cands.len() > 0 {
        let n = cands.len() - 1;
        let prefix = cands.drop_last();
        let ptimes = times.take(n);
        assert forall|j: int, k: int| 0 <= j < k < ptimes.len() implies seconds_between(
            #[trigger] ptimes[k],
            #[trigger] ptimes[j],
        ) < cooldown by {
            assert(ptimes[k] == times[k] && ptimes[j] == times[j]);
        }
        lemma_one_alert_per_condition_per_check(table, prefix, ptimes, cooldown);
        let prev = run_checks(table, prefix, ptimes, cooldown);
        let res = run_checks(table, cands, times, cooldown);
        let c = cands[n];
        let now = times[n];
        assert forall|i: int| 0 <= i < prev.1.len() implies stamped_from(
            prev.0,
            (#[trigger] prev.1[i]).key,
            times,
        ) by {
            assert(stamped_from(prev.0, prev.1[i].key, ptimes));
            let j = choose|j: int| 0 <= j < ptimes.len() && prev.0[prev.1[i].key] == #[trigger] ptimes[j];
            assert(ptimes[j] == times[j]);
        }
        if cooled_down(prev.0, c.key, now, cooldown) {
            assert forall|i: int| 0 <= i < prev.1.len() implies (#[trigger] prev.1[i]).key != c.key by {
                if prev.1[i].key == c.key {
                    assert(stamped_from(prev.0, prev.1[i].key, ptimes));
                    let j = choose|j: int|
                        0 <= j < ptimes.len() && prev.0[prev.1[i].key] == #[trigger] ptimes[j];
                    assert(ptimes[j] == times[j]);
                    assert(seconds_between(times[n], times[j]) < cooldown);
                }
            }
            assert(res.1 == prev.1.push(c));
            assert forall|i: int, k: int|
                0 <= i < res.1.len() && 0 <= k < res.1.len() && i != k implies (#[trigger] res.1[i]).key
                    != (#[trigger] res.1[k]).key by {
                if i < prev.1.len() && k < prev.1.len() {
                    assert(res.1[i] == prev.1[i] && res.1[k] == prev.1[k]);
                } else if i < prev.1.len() {
                    assert(res.1[i] == prev.1[i] && res.1[k] == c);
                } else {
                    assert(res.1[k] == prev.1[k] && res.1[i] == c);
                }
            }
            assert forall|i: int| 0 <= i < res.1.len() implies {
                &&& res.0.contains_key((#[trigger] res.1[i]).key)
                &&& stamped_from(res.0, res.1[i].key, times)
            } by {
                if i < prev.1.len() {
                    assert(res.1[i] == prev.1[i]);
                    assert(prev.1[i].key != c.key);
                    let j = choose|j: int| 0 <= j < times.len() && prev.0[prev.1[i].key] == #[trigger] times[j];
                    assert(res.0[res.1[i].key] == times[j]);
                } else {
                    assert(res.1[i] == c);
                    assert(res.0[c.key] == times[n]);
                }
            }
        }
    }
}

/// The candidates of reading `i` sit, in a block, inside the candidates of
/// the whole batch.
#[verifier::spinoff_prover]
#[verifier::rlimit(40)]
proof fn lemma_reading_block(tower_id: u32, readings: Seq<SensorAssessment>, i: int, x: AlertDecision)
    requires
        0 <= i < readings.len(),
        reading_candidates(tower_id, i, readings[i]).contains(x),
    ensures
        sensor_candidates(tower_id, readings).contains(x),
    decreases readings.len(),
{
    let p = readings.drop_last();
    let whole = sensor_candidates(tower_id, readings);
    let front = sensor_candidates(tower_id, p);
    let back = reading_candidates(tower_id, readings.len() - 1, readings.last());
    assert(whole == front + back);
    if i < readings.len() - 1 {
        assert(p[i] == readings[i]);
        lemma_reading_block(tower_id, p, i, x);
        let k = choose|k: int| 0 <= k < front.len() && front[k] == x;
        assert(whole[k] == x);
    } else {
        let k = choose|k: int| 0 <= k < back.len() && back[k] == x;
        assert(whole[front.len() + k] == x);
    }
}

/// An element of either part is an element of the two joined.
proof fn lemma_contains_in_sum(a: Seq<AlertDecision>, b: Seq<AlertDecision>, x: AlertDecision)
    ensures
        (a.contains(x) || b.contains(x)) ==> (a + b).contains(x),
{
    if a.contains(x) {
        let k = choose|k: int| 0 <= k < a.len() && a[k] == x;
        assert((a + b)[k] == x);
    } else if b.contains(x) {
        let k = choose|k: int| 0 <= k < b.len() && b[k] == x;
        assert((a + b)[a.len() + k] == x);
    }
}

/// Every reading of a batch gets the alerts its bands call for, at its own
/// position: tilt and stress keyed by the tower and the reading's own
/// layer, wind, ground and vibration keyed by the tower alone (layer 0);
/// danger at level 3 (wind 2), warning at level 1, resonance as a level-2
/// vibration alert; ground alerts are reported on layer 1, the others on
/// the reading's layer.
#[verifier::spinoff_prover]
#[verifier::rlimit(40)]
pub proof fn lemma_sensor_candidates_cover_readings(
    tower_id: u32,
    readings: Seq<SensorAssessment>,
    i: int,
)
    requires
        0 <= i < readings.len(),
    ensures
        ({
            let r = readings[i];
            let cands = sensor_candidates(tower_id, readings);
            let d = |m: Metric, s: Severity, t: AlertType, lvl: u8, layer: u8, k: KeyKind, kl: u8|
                AlertDecision {
                    source: i as usize,
                    metric: m,
                    severity: s,
                    alert_type: t,
                    alert_level: lvl,
                    layer_id: layer,
                    key: key_code(k, tower_id, kl),
                };
            &&& r.tilt == Severity::Danger ==> cands.contains(
                d(Metric::TiltTotal, Severity::Danger, AlertType::TiltExceed, 3, r.layer_id, KeyKind::TiltDanger, r.layer_id),
            )
            &&& r.tilt == Severity::Warning ==> cands.contains(
                d(Metric::TiltTotal, Severity::Warning, AlertType::TiltExceed, 1, r.layer_id, KeyKind::TiltWarn, r.layer_id),
            )
            &&& r.stress == Severity::Danger ==> cands.contains(
                d(Metric::StressVonMises, Severity::Danger, AlertType::StressCritical, 3, r.layer_id, KeyKind::StressDanger, r.layer_id),
            )
            &&& r.stress == Severity::Warning ==> cands.contains(
                d(Metric::StressVonMises, Severity::Warning, AlertType::StressCritical, 1, r.layer_id, KeyKind::StressWarn, r.layer_id),
            )
            &&& r.wind == Severity::Danger ==> cands.contains(
                d(Metric::WindSpeed, Severity::Danger, AlertType::WindOverload, 2, r.layer_id, KeyKind::WindDanger, 0),
            )
            &&& r.wind == Severity::Warning ==> cands.contains(
                d(Metric::WindSpeed, Severity::Warning, AlertType::WindOverload, 1, r.layer_id, KeyKind::WindWarn, 0),
            )
            &&& r.ground == Severity::Danger ==> cands.contains(
                d(Metric::GroundPressure, Severity::Danger, AlertType::GroundFailure, 3, 1, KeyKind::GroundDanger, 0),
            )
            &&& r.ground == Severity::Warning ==> cands.contains(
                d(Metric::GroundPressure, Severity::Warning, AlertType::GroundFailure, 1, 1, KeyKind::GroundWarn, 0),
            )
            &&& r.resonance ==> cands.contains(
                d(Metric::VibrationFreq, Severity::Danger, AlertType::VibrationExceed, 2, r.layer_id, KeyKind::VibExceed, 0),
            )
        }),
{
    let r = readings[i];
    let a = banded(tower_id, i, r.tilt, Metric::TiltTotal, AlertType::TiltExceed, 3, 1,
        KeyKind::TiltDanger, KeyKind::TiltWarn, r.layer_id, r.layer_id);
    let b = banded(tower_id, i, r.stress, Metric::StressVonMises, AlertType::StressCritical,
        3, 1, KeyKind::StressDanger, KeyKind::StressWarn, r.layer_id, r.layer_id);
    let c = banded(tower_id, i, r.wind, Metric::WindSpeed, AlertType::WindOverload, 2, 1,
        KeyKind::WindDanger, KeyKind::WindWarn, 0, r.layer_id);
    let g = banded(tower_id, i, r.ground, Metric::GroundPressure, AlertType::GroundFailure, 3,
        1, KeyKind::GroundDanger, KeyKind::GroundWarn, 0, 1);
    let e = if r.resonance {
        seq![
            AlertDecision {
                source: i as usize,
                metric: Metric::VibrationFreq,
                severity: Severity::Danger,
                alert_type: AlertType::VibrationExceed,
                alert_level: 2,
                layer_id: r.layer_id,
                key: key_code(KeyKind::VibExceed, tower_id, 0),
            },
        ]
    } else {
        Seq::<AlertDecision>::empty()
    };
    let rc = reading_candidates(tower_id, i, r);
    assert(rc == a + b + c + g + e);
    assert forall|x: AlertDecision|
        (a.contains(x) || b.contains(x) || c.contains(x) || g.contains(x) || e.contains(x))
        implies #[trigger] sensor_candidates(tower_id, readings).contains(x) by {
        lemma_contains_in_sum(a, b, x);
        lemma_contains_in_sum(a + b, c, x);
        lemma_contains_in_sum(a + b + c, g, x);
        lemma_contains_in_sum(a + b + c + g, e, x);
        lemma_reading_block(tower_id, readings, i, x);
    }
    if a.len() > 0 { assert(a.contains(a[0])); }
    if b.len() > 0 { assert(b.contains(b[0])); }
    if c.len() > 0 { assert(c.contains(c[0])); }
    if g.len() > 0 { assert(g.contains(g[0])); }
    if e.len() > 0 { assert(e.contains(e[0])); }
}

/// On a manager with no alerts yet, a candidate fires whenever no earlier
/// candidate of the same check shares its key, whatever the instants.
pub proof fn lemma_fresh_first_occurrence_fires(
    cands: Seq<AlertDecision>,
    times: Seq<Timestamp>,
    cooldown: int,
    i: int,
)
    requires
        0 <= i < cands.len(),
        forall|j: int| 0 <= j < i ==> (#[trigger] cands[j]).key != cands[i].key,
    ensures
        run_checks(Map::empty(), cands, times, cooldown).1.contains(cands[i]),
    decreases cands.len(),
{
    let n = cands.len() - 1;
    let prefix = cands.drop_last();
    let ptimes = times.take(n);
    let prev = run_checks(Map::empty(), prefix, ptimes, cooldown);
    let res = run_checks(Map::empty(), cands, times, cooldown);
    if i < n {
        assert forall|j: int| 0 <= j < i implies (#[trigger] prefix[j]).key != prefix[i].key by {
            assert(prefix[j] == cands[j]);
        }
        lemma_fresh_first_occurrence_fires(prefix, ptimes, cooldown, i);
        assert(prefix[i] == cands[i]);
        let k = choose|k: int| 0 <= k < prev.1.len() && prev.1[k] == cands[i];
        if cooled_down(prev.0, cands[n].key, times[n], cooldown) {
            assert(res.1 == prev.1.push(cands[n]));
            assert(res.1[k] == cands[i]);
        } else {
            assert(res.1[k] == cands[i]);
        }
    } else {
        lemma_run_domain(Map::empty(), prefix, ptimes, cooldown, cands[n].key);
        if prev.0.contains_key(cands[n].key) {
            let j = choose|j: int| 0 <= j < prefix.len() && (#[trigger] prefix[j]).key == cands[n].key;
            assert(cands[j] == prefix[j]);
            assert(false);
        }
        assert(res.1 == prev.1.push(cands[n]));
        assert(res.1[res.1.len() - 1] == cands[n]);
    }
}

/// The structure alerts are exactly those its flags call for, one per
/// flag: instability (safety factor, level 3) when not stable, the wind
/// limit (level 3) when the wind factor is exceeded, the second-order
/// effect (level 2) when it is exceeded. All are dangers keyed by the tower
/// alone (layer 0); only the wind alert is reported on the layer of
/// greatest tilt, the other two on the layer of greatest stress.
pub proof fn lemma_structure_candidates_follow_flags(a: StructureAssessment)
    ensures
        ({
            let cands = structure_candidates(a);
            let instability = AlertDecision {
                source: 0,
                metric: Metric::SafetyFactor,
                severity: Severity::Danger,
                alert_type: AlertType::StructureInstability,
                alert_level: 3,
                layer_id: a.max_stress_layer,
                key: key_code(KeyKind::Instability, a.tower_id, 0),
            };
            let wind = AlertDecision {
                source: 0,
                metric: Metric::CurrentWindFactor,
                severity: Severity::Danger,
                alert_type: AlertType::WindOverload,
                alert_level: 3,
                layer_id: a.max_tilt_layer,
                key: key_code(KeyKind::WindLimit, a.tower_id, 0),
            };
            let second = AlertDecision {
                source: 0,
                metric: Metric::SecondOrderEffect,
                severity: Severity::Danger,
                alert_type: AlertType::StructureInstability,
                alert_level: 2,
                layer_id: a.max_stress_layer,
                key: key_code(KeyKind::SecondOrder, a.tower_id, 0),
            };
            &&& cands.contains(instability) <==> a.is_stable == 0
            &&& cands.contains(wind) <==> a.wind_factor_exceeded
            &&& cands.contains(second) <==> a.second_order_exceeded
            &&& forall|k: int|
                0 <= k < cands.len() ==> #[trigger] cands[k] == instability || cands[k] == wind
                    || cands[k] == second
            &&& cands.len() == (if a.is_stable == 0 { 1int } else { 0 }) + (if a.wind_factor_exceeded {
                1int
            } else {
                0
            }) + (if a.second_order_exceeded { 1int } else { 0 })
        }),
{
    let cands = structure_candidates(a);
    if cands.len() > 0 {
        assert(cands.contains(cands[0]));
    }
    if cands.len() > 1 {
        assert(cands.contains(cands[1]));
    }
    if cands.len() > 2 {
        assert(cands.contains(cands[2]));
    }
}

/// Whether reading `r` calls for an alert of condition kind `k`: the
/// danger or warning band of tilt, stress, wind or ground, or resonance for
/// vibration. Structure kinds never come from a reading.
pub open spec fn reading_calls_for(r: SensorAssessment, k: KeyKind) -> bool {
    match k {
        KeyKind::TiltDanger => r.tilt == Severity::Danger,
        KeyKind::TiltWarn => r.tilt == Severity::Warning,
        KeyKind::StressDanger => r.stress == Severity::Danger,
        KeyKind::StressWarn => r.stress == Severity::Warning,
        KeyKind::WindDanger => r.wind == Severity::Danger,
        KeyKind::WindWarn => r.wind == Severity::Warning,
        KeyKind::GroundDanger => r.ground == Severity::Danger,
        KeyKind::GroundWarn => r.ground == Severity::Warning,
        KeyKind::VibExceed => r.resonance,
        _ => false,
    }
}

/// Whether conditions of kind `k` are tracked per layer (tilt and stress)
/// rather than per tower.
pub open spec fn per_layer(k: KeyKind) -> bool {
    k == KeyKind::TiltDanger || k == KeyKind::TiltWarn || k == KeyKind::StressDanger || k
        == KeyKind::StressWarn
}

/// The alert of condition kind `k` for reading `r` at position `i`, drawn
/// up field by field: its metric and alert type follow the measured
/// quantity, warnings are level 1 and dangers level 3 (wind danger and
/// vibration level 2), ground alerts are reported on layer 1 and the rest on
/// the reading's layer, and the key carries the reading's layer only for
/// per-layer kinds.
pub open spec fn reading_alert(tower_id: u32, i: int, r: SensorAssessment, k: KeyKind) -> AlertDecision {
    let warn = k == KeyKind::TiltWarn || k == KeyKind::StressWarn || k == KeyKind::WindWarn || k
        == KeyKind::GroundWarn;
    AlertDecision {
        source: i as usize,
        metric: if k == KeyKind::TiltDanger || k == KeyKind::TiltWarn {
            Metric::TiltTotal
        } else if k == KeyKind::StressDanger || k == KeyKind::StressWarn {
            Metric::StressVonMises
        } else if k == KeyKind::WindDanger || k == KeyKind::WindWarn {
            Metric::WindSpeed
        } else if k == KeyKind::GroundDanger || k == KeyKind::GroundWarn {
            Metric::GroundPressure
        } else {
            Metric::VibrationFreq
        },
        severity: if warn {
            Severity::Warning
        } else {
            Severity::Danger
        },
        alert_type: if k == KeyKind::TiltDanger || k == KeyKind::TiltWarn {
            AlertType::TiltExceed
        } else if k == KeyKind::StressDanger || k == KeyKind::StressWarn {
            AlertType::StressCritical
        } else if k == KeyKind::WindDanger || k == KeyKind::WindWarn {
            AlertType::WindOverload
        } else if k == KeyKind::GroundDanger || k == KeyKind::GroundWarn {
            AlertType::GroundFailure
        } else {
            AlertType::VibrationExceed
        },
        alert_level: if warn {
            1
        } else if k == KeyKind::WindDanger || k == KeyKind::VibExceed {
            2
        } else {
            3
        },
        layer_id: if k == KeyKind::GroundDanger || k == KeyKind::GroundWarn {
            1
        } else {
            r.layer_id
        },
        key: key_code(k, tower_id, if per_layer(k) { r.layer_id } else { 0 }),
    }
}

/// One element of two joined lists is an element of one of them.
proof fn lemma_contains_split(a: Seq<AlertDecision>, b: Seq<AlertDecision>, x: AlertDecision)
    ensures
        (a + b).contains(x) ==> a.contains(x) || b.contains(x),
{
    if (a + b).contains(x) {
        let k = choose|k: int| 0 <= k < (a + b).len() && (a + b)[k] == x;
        if k < a.len() {
            assert(a[k] == x);
        } else {
            assert(b[k - a.len()] == x);
        }
    }
}

/// Each alert of one reading is the alert of a kind the reading calls for.
#[verifier::spinoff_prover]
#[verifier::rlimit(40)]
proof fn lemma_reading_alerts_called_for(tower_id: u32, i: int, r: SensorAssessment, x: AlertDecision)
    requires
        reading_candidates(tower_id, i, r).contains(x),
    ensures
        exists|k: KeyKind| reading_calls_for(r, k) && x == #[trigger] reading_alert(tower_id, i, r, k),
{
    let a = banded(tower_id, i, r.tilt, Metric::TiltTotal, AlertType::TiltExceed, 3, 1,
        KeyKind::TiltDanger, KeyKind::TiltWarn, r.layer_id, r.layer_id);
    let b = banded(tower_id, i, r.stress, Metric::StressVonMises, AlertType::StressCritical,
        3, 1, KeyKind::StressDanger, KeyKind::StressWarn, r.layer_id, r.layer_id);
    let c = banded(tower_id, i, r.wind, Metric::WindSpeed, AlertType::WindOverload, 2, 1,
        KeyKind::WindDanger, KeyKind::WindWarn, 0, r.layer_id);
    let g = banded(tower_id, i, r.ground, Metric::GroundPressure, AlertType::GroundFailure, 3,
        1, KeyKind::GroundDanger, KeyKind::GroundWarn, 0, 1);
    let e = if r.resonance {
        seq![
            AlertDecision {
                source: i as usize,
                metric: Metric::VibrationFreq,
                severity: Severity::Danger,
                alert_type: AlertType::VibrationExceed,
                alert_level: 2,
                layer_id: r.layer_id,
                key: key_code(KeyKind::VibExceed, tower_id, 0),
            },
        ]
    } else {
        Seq::<AlertDecision>::empty()
    };
    assert(reading_candidates(tower_id, i, r) == a + b + c + g + e);
    lemma_contains_split(a + b + c + g, e, x);
    lemma_contains_split(a + b + c, g, x);
    lemma_contains_split(a + b, c, x);
    lemma_contains_split(a, b, x);
    if a.contains(x) {
        if r.tilt == Severity::Danger {
            assert(x == reading_alert(tower_id, i, r, KeyKind::TiltDanger));
        } else {
            assert(x == reading_alert(tower_id, i, r, KeyKind::TiltWarn));
        }
    } else if b.contains(x) {
        if r.stress == Severity::Danger {
            assert(x == reading_alert(tower_id, i, r, KeyKind::StressDanger));
        } else {
            assert(x == reading_alert(tower_id, i, r, KeyKind::StressWarn));
        }
    } else if c.contains(x) {
        if r.wind == Severity::Danger {
            assert(x == reading_alert(tower_id, i, r, KeyKind::WindDanger));
        } else {
            assert(x == reading_alert(tower_id, i, r, KeyKind::WindWarn));
        }
    } else if g.contains(x) {
        if r.ground == Severity::Danger {
            assert(x == reading_alert(tower_id, i, r, KeyKind::GroundDanger));
        } else {
            assert(x == reading_alert(tower_id, i, r, KeyKind::GroundWarn));
        }
    } else {
        assert(x == reading_alert(tower_id, i, r, KeyKind::VibExceed));
    }
}

/// Every candidate of a batch is the alert of a condition kind its own
/// reading calls for, and candidates come reading by reading: a candidate's
/// reading is never before that of an earlier candidate. (The readings
/// are as many as a vector can hold.)
#[verifier::spinoff_prover]
#[verifier::rlimit(40)]
pub proof fn lemma_sensor_candidates_come_from_readings(tower_id: u32, readings: Seq<SensorAssessment>)
    requires
        readings.len() <= usize::MAX,
    ensures
        forall|m: int|
            0 <= m < sensor_candidates(tower_id, readings).len() ==> {
                let x = #[trigger] sensor_candidates(tower_id, readings)[m];
                &&& 0 <= x.source < readings.len()
                &&& exists|k: KeyKind|
                    reading_calls_for(readings[x.source as int], k) && x == #[trigger] reading_alert(
                        tower_id,
                        x.source as int,
                        readings[x.source as int],
                        k,
                    )
            },
        forall|m1: int, m2: int|
            0 <= m1 < m2 < sensor_candidates(tower_id, readings).len() ==> (
            #[trigger] sensor_candidates(tower_id, readings)[m1]).source <= (
            #[trigger] sensor_candidates(tower_id, readings)[m2]).source,
    decreases readings.len(),
{
    if readings.len() > 0 {
        let n = readings.len() - 1;
        let p = readings.drop_last();
        lemma_sensor_candidates_come_from_readings(tower_id, p);
        let front = sensor_candidates(tower_id, p);
        let back = reading_candidates(tower_id, n, readings[n]);
        let cands = sensor_candidates(tower_id, readings);
        assert(cands == front + back);
        assert forall|m: int| 0 <= m < back.len() implies (#[trigger] back[m]).source == n && exists|k: KeyKind|
            reading_calls_for(readings[n], k) && back[m] == #[trigger] reading_alert(tower_id, n, readings[n], k) by {
            assert(back.contains(back[m]));
            lemma_reading_alerts_called_for(tower_id, n, readings[n], back[m]);
        }
        assert forall|m: int| 0 <= m < cands.len() implies {
            let x = #[trigger] cands[m];
            &&& 0 <= x.source < readings.len()
            &&& exists|k: KeyKind|
                reading_calls_for(readings[x.source as int], k) && x == #[trigger] reading_alert(
                    tower_id,
                    x.source as int,
                    readings[x.source as int],
                    k,
                )
        } by {
            if m < front.len() {
                let x = front[m];
                assert(cands[m] == x);
                assert(p[x.source as int] == readings[x.source as int]);
            } else {
                assert(cands[m] == back[m - front.len()]);
            }
        }
        assert forall|m1: int, m2: int| 0 <= m1 < m2 < cands.len() implies (#[trigger] cands[m1]).source
            <= (#[trigger] cands[m2]).source by {
            if m2 < front.len() {
                assert(cands[m1] == front[m1] && cands[m2] == front[m2]);
            } else if m1 < front.len() {
                assert(cands[m1] == front[m1] && cands[m2] == back[m2 - front.len()]);
            } else {
                assert(cands[m1] == back[m1 - front.len()] && cands[m2] == back[m2 - front.len()]);
            }
        }
    }
}

/// The alert of a kind a reading calls for is among the batch's
/// candidates.
proof fn lemma_reading_alert_in_candidates(
    tower_id: u32,
    readings: Seq<SensorAssessment>,
    i: int,
    k: KeyKind,
)
    requires
        0 <= i < readings.len(),
        reading_calls_for(readings[i], k),
    ensures
        sensor_candidates(tower_id, readings).contains(reading_alert(tower_id, i, readings[i], k)),
{
    lemma_sensor_candidates_cover_readings(tower_id, readings, i);
}

/// Two reading alerts with the same key are of the same kind, and, for a
/// per-layer kind, from readings on the same layer.
#[verifier::spinoff_prover]
#[verifier::rlimit(40)]
proof fn lemma_same_condition(
    tower_id: u32,
    readings: Seq<SensorAssessment>,
    s: int,
    k2: KeyKind,
    i: int,
    k: KeyKind,
)
    requires
        reading_alert(tower_id, s, readings[s], k2).key == reading_alert(
            tower_id,
            i,
            readings[i],
            k,
        ).key,
    ensures
        k2 == k,
        per_layer(k) ==> readings[s].layer_id == readings[i].layer_id,
{
    let l2: u8 = if per_layer(k2) { readings[s].layer_id } else { 0 };
    let l1: u8 = if per_layer(k) { readings[i].layer_id } else { 0 };
    lemma_key_codes_distinct(k2, tower_id, l2, k, tower_id, l1);
}

/// A list that holds `x` holds it a first time.
proof fn lemma_first_index(s: Seq<AlertDecision>, x: AlertDecision)
    requires
        s.contains(x),
    ensures
        exists|p: int| 0 <= p < s.len() && s[p] == x && forall|j: int| 0 <= j < p ==> #[trigger] s[j] != x,
    decreases s.len(),
{
    let q = s.drop_last();
    if q.contains(x) {
        lemma_first_index(q, x);
        let p = choose|p: int| 0 <= p < q.len() && q[p] == x && forall|j: int| 0 <= j < p ==> #[trigger] q[j] != x;
        assert(s[p] == x);
        assert forall|j: int| 0 <= j < p implies #[trigger] s[j] != x by {
            assert(q[j] == s[j]);
        }
    } else {
        let p = s.len() - 1;
        assert forall|j: int| 0 <= j < p implies #[trigger] s[j] != x by {
            assert(q[j] == s[j]);
            if s[j] == x {
                assert(q.contains(x));
            }
        }
        let k = choose|k: int| 0 <= k < s.len() && s[k] == x;
        if k < p {
            assert(q[k] == x);
        }
    }
}

/// On a manager with no alerts yet, whatever the clock reads, a batch
/// raises every alert a reading calls for unless an earlier reading of the
/// same batch called for the same condition: the same kind, and for tilt
/// and stress also the same layer. So two readings on different layers
/// that both show stress danger both raise it, while a tower-wide
/// condition is raised for its first reading only.
#[verifier::spinoff_prover]
#[verifier::rlimit(40)]
pub proof fn lemma_fresh_batch_raises_first_of_each_condition(
    tower_id: u32,
    readings: Seq<SensorAssessment>,
    times: Seq<Timestamp>,
    cooldown: int,
    i: int,
    k: KeyKind,
)
    requires
        readings.len() <= usize::MAX,
        0 <= i < readings.len(),
        reading_calls_for(readings[i], k),
        forall|j: int|
            0 <= j < i && #[trigger] reading_calls_for(readings[j], k) ==> per_layer(k)
                && readings[j].layer_id != readings[i].layer_id,
    ensures
        run_checks(Map::empty(), sensor_candidates(tower_id, readings), times, cooldown).1.contains(
            reading_alert(tower_id, i, readings[i], k),
        ),
{
    let cands = sensor_candidates(tower_id, readings);
    lemma_reading_alert_in_candidates(tower_id, readings, i, k);
    lemma_sensor_candidates_come_from_readings(tower_id, readings);
    let p = lemma_earlier_keys_differ(tower_id, readings, cands, i, k);
    lemma_fresh_first_occurrence_fires(cands, times, cooldown, p);
}

/// In any list of reading alerts laid out reading by reading, the first
/// place where the alert of kind `k` of reading `i` stands is preceded by no
/// alert of the same key, when no earlier reading called for that
/// condition.
#[verifier::spinoff_prover]
#[verifier::rlimit(40)]
proof fn lemma_earlier_keys_differ(
    tower_id: u32,
    readings: Seq<SensorAssessment>,
    cands: Seq<AlertDecision>,
    i: int,
    k: KeyKind,
) -> (p: int)
    requires
        readings.len() <= usize::MAX,
        0 <= i < readings.len(),
        cands.contains(reading_alert(tower_id, i, readings[i], k)),
        forall|j: int|
            0 <= j < i && #[trigger] reading_calls_for(readings[j], k) ==> per_layer(k)
                && readings[j].layer_id != readings[i].layer_id,
        forall|m: int|
            0 <= m < cands.len() ==> {
                let x = #[trigger] cands[m];
                &&& 0 <= x.source < readings.len()
                &&& exists|k: KeyKind|
                    reading_calls_for(readings[x.source as int], k) && x == #[trigger] reading_alert(
                        tower_id,
                        x.source as int,
                        readings[x.source as int],
                        k,
                    )
            },
        forall|m1: int, m2: int|
            0 <= m1 < m2 < cands.len() ==> (#[trigger] cands[m1]).source <= (
            #[trigger] cands[m2]).source,
    ensures
        0 <= p < cands.len(),
        cands[p] == reading_alert(tower_id, i, readings[i], k),
        forall|j: int| 0 <= j < p ==> (#[trigger] cands[j]).key != cands[p].key,
{
    let x = reading_alert(tower_id, i, readings[i], k);
    lemma_first_index(cands, x);
    let p = choose|p: int| 0 <= p < cands.len() && cands[p] == x && forall|j: int| 0 <= j < p ==> #[trigger] cands[j] != x;
    assert(x.source as int == i);
    assert forall|j: int| 0 <= j < p implies (#[trigger] cands[j]).key != cands[p].key by {
        let y = cands[j];
        let s_ = y.source as int;
        let k2 = choose|k2: KeyKind| reading_calls_for(readings[s_], k2) && y == #[trigger] reading_alert(tower_id, s_, readings[s_], k2);
        assert(y.source <= cands[p].source);
        if y.key == x.key {
            lemma_same_condition(tower_id, readings, s_, k2, i, k);
            if s_ < i {
                assert(reading_calls_for(readings[s_], k));
            } else {
                assert(y == x);
            }
        }
    }
    p
}

/// The alert cooldown table: when each condition last raised an alert.
pub struct AlertManager {
    last_alerts: HashMap<u64, Timestamp>,
    cooldown_seconds: i64,
}

impl AlertManager {
    /// When each condition key last raised an alert.
    pub closed spec fn table(&self) -> Map<u64, Timestamp> {
        self.last_alerts@
    }

    /// The cooldown window in whole seconds.
    pub closed spec fn cooldown(&self) -> int {
        self.cooldown_seconds as int
    }

    /// A manager that has raised no alert yet, with a 300-second cooldown.
    pub fn new() -> (m: AlertManager)
        ensures
            m.table() == Map::<u64, Timestamp>::empty(),
            m.cooldown() == 300,
    {
        AlertManager { last_alerts: HashMap::new(), cooldown_seconds: 300 }
    }

    /// Decides whether the condition `key` raises an alert at `now`, and if
    /// so records `now` as its last alert.
    pub fn should_alert_at(&mut self, key: u64, now: Timestamp) -> (fire: bool)
        ensures
            fire == cooled_down(old(self).table(), key, now, old(self).cooldown()),
            final(self).table() == (if fire {
                old(self).table().insert(key, now)
            } else {
                old(self).table()
            }),
            final(self).cooldown() == old(self).cooldown(),
    {
        match self.last_alerts.get(&key) {
            Some(last) => {
                let waited = elapsed_seconds(now, *last);
                if waited < (self.cooldown_seconds as i128) {
                    return false;
                }
            },
            None => {},
        }
        self.last_alerts.insert(key, now);
        true
    }

    /// Runs the candidates through the cooldown, the `i`-th at the given
    /// instant `times[i]`: each one whose condition is out of its cooldown
    /// then is kept and stamps that instant.
    pub fn check_candidates_at(&mut self, cands: &Vec<AlertDecision>, times: &Vec<Timestamp>) -> (fired: Vec<AlertDecision>)
        requires
            times@.len() == cands@.len(),
        ensures
            final(self).cooldown() == old(self).cooldown(),
            run_checks(old(self).table(), cands@, times@, old(self).cooldown()) == (
                final(self).table(),
                fired@,
            ),
    {
        let ghost start = self.table();
        let ghost cd = self.cooldown();
        let mut fired: Vec<AlertDecision> = Vec::new();
        let n = cands.len();
        let mut i: usize = 0;
        while i < n
            invariant
                n == cands@.len(),
                n == times@.len(),
                i <= n,
                self.cooldown() == cd,
                run_checks(start, cands@.take(i as int), times@.take(i as int), cd) == (
                    self.table(),
                    fired@,
                ),
            decreases n - i,
        {
            let now = times[i];
            let c = cands[i];
            let fire = self.should_alert_at(c.key, now);
            if fire {
                fired.push(c);
            }
            proof {
                assert(cands@.take(i + 1).drop_last() =~= cands@.take(i as int));
                assert(times@.take(i + 1).take(i as int) =~= times@.take(i as int));
                assert(cands@.take(i + 1).last() == c);
                assert(times@.take(i + 1)[i as int] == now);
            }
            i = i + 1;
        }
        proof {
            assert(cands@.take(n as int) =~= cands@);
            assert(times@.take(n as int) =~= times@);
        }
        fired
    }

    /// Runs the candidates through the cooldown, each at the instant the
    /// clock reads when its turn comes.
    fn run_candidates(&mut self, cands: &Vec<AlertDecision>) -> (fired: Vec<AlertDecision>)
        ensures
            final(self).cooldown() == old(self).cooldown(),
            exists|times: Seq<Timestamp>|
                times.len() == cands@.len() && run_checks(
                    old(self).table(),
                    cands@,
                    times,
                    old(self).cooldown(),
                ) == (final(self).table(), fired@),
    {
        let ghost start = self.table();
        let ghost cd = self.cooldown();
        let ghost mut times: Seq<Timestamp> = Seq::empty();
        let mut fired: Vec<AlertDecision> = Vec::new();
        let n = cands.len();
        let mut i: usize = 0;
        while i < n
            invariant
                n == cands@.len(),
                i <= n,
                times.len() == i,
                self.cooldown() == cd,
                run_checks(start, cands@.take(i as int), times, cd) == (self.table(), fired@),
            decreases n - i,
        {
            let now = read_clock().instant;
            let c = cands[i];
            let fire = self.should_alert_at(c.key, now);
            if fire {
                fired.push(c);
            }
            proof {
                let ghost prev_times = times;
                times = times.push(now);
                assert(cands@.take(i + 1).drop_last() =~= cands@.take(i as int));
                assert(times.take(i as int) =~= prev_times);
                assert(cands@.take(i + 1).last() == c);
            }
            i = i + 1;
        }
        proof {
            assert(cands@.take(n as int) =~= cands@);
        }
        fired
    }

    /// The alerts a batch of sensor readings of tower `tower_id` raises:
    /// its candidates, in order, each kept when its condition is out of its
    /// cooldown at the instant it is checked.
    pub fn check_sensor_alerts(&mut self, tower_id: u32, readings: &Vec<SensorAssessment>) -> (alerts: Vec<AlertDecision>)
        ensures
            final(self).cooldown() == old(self).cooldown(),
            exists|times: Seq<Timestamp>|
                times.len() == sensor_candidates(tower_id, readings@).len() && run_checks(
                    old(self).table(),
                    sensor_candidates(tower_id, readings@),
                    times,
                    old(self).cooldown(),
                ) == (final(self).table(), alerts@),
    {
        let cands = sensor_alert_candidates(tower_id, readings);
        self.run_candidates(&cands)
    }

    /// The alerts a structure analysis raises: its candidates, in order,
    /// each kept when its condition is out of its cooldown at the instant it
    /// is checked.
    pub fn check_structure_alerts(&mut self, assessment: &StructureAssessment) -> (alerts: Vec<AlertDecision>)
        ensures
            final(self).cooldown() == old(self).cooldown(),
            exists|times: Seq<Timestamp>|
                times.len() == structure_candidates(*assessment).len() && run_checks(
                    old(self).table(),
                    structure_candidates(*assessment),
                    times,
                    old(self).cooldown(),
                ) == (final(self).table(), alerts@),
    {
        let cands = structure_alert_candidates(assessment);
        self.run_candidates(&cands)
    }
}

impl Default for AlertManager {
    fn default() -> (m: AlertManager)
        ensures
            m.table() == Map::<u64, Timestamp>::empty(),
            m.cooldown() == 300,
    {
        AlertManager::new()
    }
}

} // verus!
