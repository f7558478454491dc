use siege_tower_backend::analyzers::{default_pool_size, FoundationAnalyzer, VrSiegeTower};
use siege_tower_backend::models::{category_for_tower, dynasty_for_tower, AlertType, SoilType, TowerCategory};
use std::str::FromStr;

#[test]
fn test_parse_soil_type() {
    assert_eq!(FoundationAnalyzer::parse_soil_type("sand"), SoilType::Sand);
    assert_eq!(FoundationAnalyzer::parse_soil_type("clay"), SoilType::Clay);
    assert_eq!(FoundationAnalyzer::parse_soil_type("loam"), SoilType::Loam);
    assert_eq!(FoundationAnalyzer::parse_soil_type("silt"), SoilType::Silt);
    assert_eq!(FoundationAnalyzer::parse_soil_type("rock"), SoilType::Rock);
    assert_eq!(FoundationAnalyzer::parse_soil_type("unknown"), SoilType::Loam);
}

#[test]
fn test_transition_increases_with_risk() {
    let levels = [1u8, 2, 3, 4, 5];
    let durs: Vec<_> = levels.iter().map(|&l| VrSiegeTower::compute_transition_duration(l)).collect();
    for i in 1..durs.len() {
        assert!(durs[i] >= durs[i - 1]);
    }
    assert_eq!(durs[0], 500);
    assert_eq!(durs[4], 2000);
}

#[test]
fn test_dynasty_mapping_correct() {
    assert_eq!(dynasty_for_tower(1), "明朝(景泰)");
    assert_eq!(dynasty_for_tower(3), "明朝(洪武)");
    assert_eq!(dynasty_for_tower(4), "三国(魏)");
    assert_eq!(dynasty_for_tower(5), "现代");
}

#[test]
fn test_category_mapping_correct() {
    assert_eq!(category_for_tower(1), TowerCategory::AncientWooden);
    assert_eq!(category_for_tower(5), TowerCategory::ModernSteel);
}

#[test]
fn dynasty_of_second_and_unknown_towers() {
    assert_eq!(dynasty_for_tower(2), "明朝(景泰)");
    assert_eq!(dynasty_for_tower(0), "未知");
    assert_eq!(dynasty_for_tower(99), "未知");
    assert_eq!(category_for_tower(4), TowerCategory::AncientWooden);
    assert_eq!(category_for_tower(99), TowerCategory::AncientWooden);
}

#[test]
fn soil_names_round_trip() {
    for t in [SoilType::Sand, SoilType::Clay, SoilType::Silt, SoilType::Rock, SoilType::Loam] {
        assert_eq!(SoilType::parse_name(t.as_str()), Ok(t));
        assert_eq!(FoundationAnalyzer::parse_soil_type(t.as_str()), t);
    }
    assert_eq!(SoilType::Sand.as_str(), "sand");
    assert_eq!(SoilType::Rock.as_str(), "rock");
}

#[test]
fn soil_names_ignore_case() {
    assert_eq!(SoilType::parse_name("SAND"), Ok(SoilType::Sand));
    assert_eq!(SoilType::parse_name("Clay"), Ok(SoilType::Clay));
    assert_eq!(SoilType::from_str("RoCk"), Ok(SoilType::Rock));
    assert_eq!(FoundationAnalyzer::parse_soil_type("LOAM"), SoilType::Loam);
}

#[test]
fn unknown_soil_is_rejected_with_its_name() {
    assert_eq!(SoilType::parse_name("Gravel"), Err("未知土壤类型: Gravel".to_string()));
    assert_eq!(SoilType::parse_name(""), Err("未知土壤类型: ".to_string()));
    assert_eq!(SoilType::parse_name(" sand"), Err("未知土壤类型:  sand".to_string()));
    assert_eq!(FoundationAnalyzer::parse_soil_type("gravel"), SoilType::Loam);
}

#[test]
fn soil_classified_from_given_lower_case() {
    assert_eq!(SoilType::classify_name("SILT", "silt"), Ok(SoilType::Silt));
    assert_eq!(SoilType::classify_name("x", "y"), Err("未知土壤类型: x".to_string()));
}

#[test]
fn alert_type_codes_and_descriptions() {
    assert_eq!(AlertType::TiltExceed.as_str(), "tilt_exceed");
    assert_eq!(AlertType::StressCritical.as_str(), "stress_critical");
    assert_eq!(AlertType::WindOverload.as_str(), "wind_overload");
    assert_eq!(AlertType::GroundFailure.as_str(), "ground_failure");
    assert_eq!(AlertType::VibrationExceed.as_str(), "vibration_exceed");
    assert_eq!(AlertType::StructureInstability.as_str(), "structure_instability");
    assert_eq!(AlertType::TiltExceed.description(), "倾斜角度超限");
    assert_eq!(AlertType::StressCritical.description(), "应力接近临界值");
    assert_eq!(AlertType::WindOverload.description(), "风荷载超载");
    assert_eq!(AlertType::GroundFailure.description(), "地面承载失效");
    assert_eq!(AlertType::VibrationExceed.description(), "振动超限");
    assert_eq!(AlertType::StructureInstability.description(), "结构失稳预警");
}

#[test]
fn transition_durations_per_level() {
    assert_eq!(VrSiegeTower::compute_transition_duration(0), 500);
    assert_eq!(VrSiegeTower::compute_transition_duration(2), 500);
    assert_eq!(VrSiegeTower::compute_transition_duration(3), 1000);
    assert_eq!(VrSiegeTower::compute_transition_duration(4), 1500);
    assert_eq!(VrSiegeTower::compute_transition_duration(5), 2000);
    assert_eq!(VrSiegeTower::compute_transition_duration(255), 2000);
}

#[test]
fn pool_size_defaults() {
    assert_eq!(default_pool_size(None), 4);
    assert_eq!(default_pool_size(Some(1)), 2);
    assert_eq!(default_pool_size(Some(2)), 2);
    assert_eq!(default_pool_size(Some(16)), 16);
}

#[test]
fn parse_soil_type_ignores_case_and_falls_back_to_loam() {
    for name in ["sand", "clay", "silt", "rock", "loam"] {
        let upper = name.to_uppercase();
        assert_eq!(FoundationAnalyzer::parse_soil_type(&upper), FoundationAnalyzer::parse_soil_type(name));
        assert_eq!(FoundationAnalyzer::parse_soil_type(name).as_str(), name);
    }
    assert_eq!(FoundationAnalyzer::parse_soil_type("granite"), SoilType::Loam);
    assert_eq!(FoundationAnalyzer::parse_soil_type(""), SoilType::Loam);
}
