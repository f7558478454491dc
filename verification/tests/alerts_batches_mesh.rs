use siege_tower_backend::alerting::{
    alert_key, sensor_alert_candidates, structure_alert_candidates, AlertManager, KeyKind, Metric,
    SensorAssessment, Severity, StructureAssessment,
};
use siege_tower_backend::batch::{check_batch, BatchError, EnvironmentCheck, LayerCheck};
use siege_tower_backend::clock::{elapsed_seconds, Timestamp};
use siege_tower_backend::mesh::{mesh_elements, mesh_nodes};
use siege_tower_backend::models::AlertType;

fn quiet(layer_id: u8) -> SensorAssessment {
    SensorAssessment {
        layer_id,
        tilt: Severity::Normal,
        stress: Severity::Normal,
        wind: Severity::Normal,
        ground: Severity::Normal,
        resonance: false,
    }
}

#[test]
fn keys_are_distinct_per_condition() {
    assert_ne!(alert_key(KeyKind::TiltDanger, 1, 2), alert_key(KeyKind::TiltWarn, 1, 2));
    assert_ne!(alert_key(KeyKind::TiltDanger, 1, 11), alert_key(KeyKind::TiltDanger, 11, 1));
    assert_ne!(alert_key(KeyKind::WindDanger, 1, 0), alert_key(KeyKind::WindDanger, 2, 0));
    assert_eq!(alert_key(KeyKind::TiltDanger, 0, 0), 0);
    assert_eq!(alert_key(KeyKind::TiltWarn, 1, 2), (1u64 << 40) | (1 << 8) | 2);
}

#[test]
fn candidates_follow_bands() {
    let mut r = quiet(3);
    r.tilt = Severity::Danger;
    r.stress = Severity::Warning;
    r.wind = Severity::Danger;
    r.ground = Severity::Warning;
    r.resonance = true;
    let c = sensor_alert_candidates(1, &vec![quiet(1), r]);
    assert_eq!(c.len(), 5);
    assert_eq!((c[0].alert_type, c[0].alert_level, c[0].layer_id, c[0].source), (AlertType::TiltExceed, 3, 3, 1));
    assert_eq!((c[1].alert_type, c[1].alert_level, c[1].metric), (AlertType::StressCritical, 1, Metric::StressVonMises));
    assert_eq!((c[2].alert_type, c[2].alert_level, c[2].layer_id), (AlertType::WindOverload, 2, 3));
    assert_eq!((c[3].alert_type, c[3].alert_level, c[3].layer_id), (AlertType::GroundFailure, 1, 1));
    assert_eq!((c[4].alert_type, c[4].alert_level, c[4].metric), (AlertType::VibrationExceed, 2, Metric::VibrationFreq));
    assert_eq!(c[2].key, alert_key(KeyKind::WindDanger, 1, 0));
    assert_eq!(c[0].key, alert_key(KeyKind::TiltDanger, 1, 3));
    assert_eq!(Metric::TiltTotal.name(), "tilt_total");
    assert_eq!(Metric::GroundPressure.name(), "ground_pressure");
    assert_eq!(Metric::SecondOrderEffect.name(), "second_order_effect");
}

#[test]
fn fresh_manager_raises_then_rests() {
    let mut m = AlertManager::new();
    let mut r = quiet(2);
    r.tilt = Severity::Warning;
    let first = m.check_sensor_alerts(4, &vec![r]);
    assert_eq!(first.len(), 1);
    assert_eq!(first[0].alert_type, AlertType::TiltExceed);
    assert_eq!(first[0].alert_level, 1);
    let again = m.check_sensor_alerts(4, &vec![r]);
    assert!(again.is_empty());
    r.tilt = Severity::Danger;
    let danger = m.check_sensor_alerts(4, &vec![r]);
    assert_eq!(danger.len(), 1);
    assert_eq!(danger[0].alert_level, 3);
}

#[test]
fn fresh_manager_raises_every_alert_of_one_reading() {
    let mut m = AlertManager::new();
    let mut r = quiet(5);
    r.tilt = Severity::Danger;
    r.stress = Severity::Danger;
    r.wind = Severity::Warning;
    r.ground = Severity::Danger;
    r.resonance = true;
    let cands = sensor_alert_candidates(9, &vec![r]);
    let fired = m.check_sensor_alerts(9, &vec![r]);
    assert_eq!(fired.len(), 5);
    assert_eq!(fired, cands);
}

fn at(secs: i64) -> Timestamp {
    Timestamp { secs, nanos: 0 }
}

#[test]
fn repeat_check_within_cooldown_is_quiet_at_given_instants() {
    let mut m = AlertManager::new();
    let mut r = quiet(2);
    r.tilt = Severity::Danger;
    r.wind = Severity::Warning;
    let readings = vec![r, r];
    let cands = sensor_alert_candidates(6, &readings);
    assert_eq!(cands.len(), 4);
    let first = m.check_candidates_at(&cands, &vec![at(1000), at(1001), at(1002), at(1003)]);
    // tilt is keyed per layer and wind per tower: both readings share them
    assert_eq!(first.len(), 2);
    assert_eq!(first[0], cands[0]);
    assert_eq!(first[1], cands[1]);
    let second = m.check_candidates_at(&cands, &vec![at(1200), at(1200), at(1299), at(1299)]);
    assert!(second.is_empty());
    let third = m.check_candidates_at(&cands, &vec![at(1303), at(1303), at(1303), at(1303)]);
    assert_eq!(third.len(), 2);
}

#[test]
fn tower_wide_condition_raises_once_per_batch() {
    let mut m = AlertManager::new();
    let readings: Vec<SensorAssessment> = (1..=5).map(|l| {
        let mut r = quiet(l);
        r.wind = Severity::Danger;
        r
    }).collect();
    let fired = m.check_sensor_alerts(1, &readings);
    assert_eq!(fired.len(), 1);
    assert_eq!(fired[0].layer_id, 1);
}

#[test]
fn cooldown_at_explicit_instants() {
    let mut m = AlertManager::new();
    let k = alert_key(KeyKind::Instability, 9, 0);
    let t0 = Timestamp { secs: 1_000, nanos: 0 };
    assert!(m.should_alert_at(k, t0));
    assert!(!m.should_alert_at(k, Timestamp { secs: 1_299, nanos: 999_999_999 }));
    assert!(m.should_alert_at(k, Timestamp { secs: 1_300, nanos: 0 }));
    assert!(!m.should_alert_at(k, Timestamp { secs: 1_300, nanos: 5 }));
    assert!(m.should_alert_at(alert_key(KeyKind::WindLimit, 9, 0), Timestamp { secs: 1_300, nanos: 5 }));
}

#[test]
fn elapsed_seconds_round_toward_zero() {
    let a = Timestamp { secs: 10, nanos: 500_000_000 };
    let b = Timestamp { secs: 8, nanos: 900_000_000 };
    assert_eq!(elapsed_seconds(a, b), 1);
    assert_eq!(elapsed_seconds(b, a), -1);
    assert_eq!(elapsed_seconds(a, a), 0);
}

#[test]
fn structure_alerts_on_first_check() {
    let mut m = AlertManager::default();
    let a = StructureAssessment {
        tower_id: 2,
        is_stable: 0,
        max_stress_layer: 4,
        max_tilt_layer: 5,
        wind_factor_exceeded: true,
        second_order_exceeded: true,
    };
    assert_eq!(structure_alert_candidates(&a).len(), 3);
    let fired = m.check_structure_alerts(&a);
    assert_eq!(fired.len(), 3);
    assert_eq!((fired[0].alert_type, fired[0].alert_level, fired[0].layer_id), (AlertType::StructureInstability, 3, 4));
    assert_eq!((fired[1].alert_type, fired[1].alert_level, fired[1].layer_id), (AlertType::WindOverload, 3, 5));
    assert_eq!((fired[2].alert_type, fired[2].alert_level, fired[2].metric), (AlertType::StructureInstability, 2, Metric::SecondOrderEffect));
    assert!(m.check_structure_alerts(&a).is_empty());
    let calm = StructureAssessment { is_stable: 1, wind_factor_exceeded: false, second_order_exceeded: false, ..a };
    assert!(structure_alert_candidates(&calm).is_empty());
}

fn layers(n: u8) -> Vec<LayerCheck> {
    (1..=n).map(|i| LayerCheck { layer_id: i, stress_in_range: true, tilt_in_range: true }).collect()
}

#[test]
fn batch_accepted_when_all_checks_pass() {
    assert_eq!(check_batch(1, 1, 5, &layers(5), None), Ok(()));
    let env = EnvironmentCheck { temperature_in_range: true, wind_in_range: true };
    assert_eq!(check_batch(1, 1, 5, &layers(5), Some(env)), Ok(()));
    assert_eq!(check_batch(3, 3, 0, &vec![], None), Ok(()));
}

#[test]
fn batch_errors_in_order() {
    assert_eq!(check_batch(2, 1, 5, &layers(5), None), Err(BatchError::TowerMismatch { batch_tower_id: 2, tower_id: 1 }));
    assert_eq!(check_batch(1, 1, 5, &layers(4), None), Err(BatchError::LayerCountMismatch { got: 4, expected: 5 }));
    let mut l = layers(5);
    l[2].layer_id = 7;
    l[3].stress_in_range = false;
    assert_eq!(check_batch(1, 1, 5, &l, None), Err(BatchError::LayerOutOfSequence { index: 2, layer_id: 7 }));
    let mut l = layers(5);
    l[1].tilt_in_range = false;
    l[3].stress_in_range = false;
    assert_eq!(check_batch(1, 1, 5, &l, None), Err(BatchError::TiltOutOfRange { index: 1, layer_id: 2 }));
    let mut l = layers(5);
    l[0].stress_in_range = false;
    l[0].tilt_in_range = false;
    assert_eq!(check_batch(1, 1, 5, &l, None), Err(BatchError::StressOutOfRange { index: 0, layer_id: 1 }));
    let hot = EnvironmentCheck { temperature_in_range: false, wind_in_range: false };
    assert_eq!(check_batch(1, 1, 5, &layers(5), Some(hot)), Err(BatchError::TemperatureOutOfRange));
    let windy = EnvironmentCheck { temperature_in_range: true, wind_in_range: false };
    assert_eq!(check_batch(1, 1, 5, &layers(5), Some(windy)), Err(BatchError::WindOutOfRange));
}

#[test]
fn mesh_sizes_and_numbering() {
    let nodes = mesh_nodes(5);
    assert_eq!(nodes.len(), 120);
    for (k, n) in nodes.iter().enumerate() {
        assert_eq!(n.node_id as usize, k);
    }
    assert_eq!((nodes[27].level, nodes[27].iy, nodes[27].ix), (1, 1, 2));
    let elems = mesh_elements(5);
    assert_eq!(elems.len(), 300);
    assert_eq!(elems[0].node_ids, [0, 1, 5, 20]);
    assert_eq!(elems[1].node_ids, [1, 6, 5, 21]);
    assert_eq!(elems[4].node_ids, [20, 21, 25, 26]);
    assert_eq!(elems[5].node_ids, [1, 2, 6, 21]);
    assert_eq!(elems[60].node_ids, [20, 21, 25, 40]);
    assert_eq!(elems[299].layer_id, 5);
    for (e, el) in elems.iter().enumerate() {
        assert_eq!(el.element_id as usize, e);
        assert!(el.layer_id >= 1 && el.layer_id <= 5);
        for id in el.node_ids {
            assert!((id as usize) < nodes.len());
        }
    }
    assert_eq!(mesh_nodes(0).len(), 20);
    assert!(mesh_elements(0).is_empty());
}
