//! The five preset towers the backend knows without configuration: which
//! preset a tower id selects, and each preset's identity and layer count.
use vstd::prelude::*;

verus! {

/// The non-dimensional facts of a preset tower.
pub struct TowerProfile {
    pub tower_id: u32,
    pub tower_name: String,
    pub build_date: String,
    pub material: String,
    pub total_layers: u8,
}

/// The preset a tower id selects: ids 2 to 5 select themselves, every
/// other id selects tower 1.
pub open spec fn preset_id(tower_id: u32) -> u32 {
    if 2 <= tower_id && tower_id <= 5 {
        tower_id
    } else {
        1
    }
}

/// The name of a preset.
pub open spec fn preset_name(p: u32) -> Seq<char> {
    if p == 2 {
        "临冲吕公车-二号"@
    } else if p == 3 {
        "云梯车"@
    } else if p == 4 {
        "冲车"@
    } else if p == 5 {
        "现代塔吊"@
    } else {
        "临冲吕公车-一号"@
    }
}

/// The build date of a preset.
pub open spec fn preset_build_date(p: u32) -> Seq<char> {
    if p == 2 {
        "1452-07-22"@
    } else if p == 3 {
        "1368-01-01"@
    } else if p == 4 {
        "0350-01-01"@
    } else if p == 5 {
        "2024-01-01"@
    } else {
        "1450-03-15"@
    }
}

/// The material of a preset.
pub open spec fn preset_material(p: u32) -> Seq<char> {
    if p == 2 {
        "柏木+楠木"@
    } else if p == 3 {
        "松木+竹"@
    } else if p == 4 {
        "硬木+铁箍"@
    } else if p == 5 {
        "Q345B钢材"@
    } else {
        "松木+铁木"@
    }
}

/// The number of layers of a preset.
pub open spec fn preset_layers(p: u32) -> u8 {
    if p == 2 {
        6
    } else if p == 3 {
        3
    } else if p == 4 {
        2
    } else if p == 5 {
        12
    } else {
        5
    }
}

/// The preset tower a tower id selects.
pub fn default_tower_profile(tower_id: u32) -> (t: TowerProfile)
    ensures
        t.tower_id == preset_id(tower_id),
        t.tower_name@ == preset_name(t.tower_id),
        t.build_date@ == preset_build_date(t.tower_id),
        t.material@ == preset_material(t.tower_id),
        t.total_layers == preset_layers(t.tower_id),
{
    if tower_id == 2 {
        TowerProfile {
            tower_id: 2,
            tower_name: String::from_str("临冲吕公车-二号"),
            build_date: String::from_str("1452-07-22"),
            material: String::from_str("柏木+楠木"),
            total_layers: 6,
        }
    } else if tower_id == 3 {
        TowerProfile {
            tower_id: 3,
            tower_name: String::from_str("云梯车"),
            build_date: String::from_str("1368-01-01"),
            material: String::from_str("松木+竹"),
            total_layers: 3,
        }
    } else if tower_id == 4 {
        TowerProfile {
            tower_id: 4,
            tower_name: String::from_str("冲车"),
            build_date: String::from_str("0350-01-01"),
            material: String::from_str("硬木+铁箍"),
            total_layers: 2,
        }
    } else if tower_id == 5 {
        TowerProfile {
            tower_id: 5,
            tower_name: String::from_str("现代塔吊"),
            build_date: String::from_str("2024-01-01"),
            material: String::from_str("Q345B钢材"),
            total_layers: 12,
        }
    } else {
        TowerProfile {
            tower_id: 1,
            tower_name: String::from_str("临冲吕公车-一号"),
            build_date: String::from_str("1450-03-15"),
            material: String::from_str("松木+铁木"),
            total_layers: 5,
        }
    }
}

/// Every tower id selects one of the five presets; ids 1 to 5 select their
/// own preset, and any other id selects tower 1. Every preset has at least
/// two layers.
pub proof fn lemma_preset_selection(tower_id: u32)
    ensures
        1 <= preset_id(tower_id) <= 5,
        (1 <= tower_id <= 5) ==> preset_id(tower_id) == tower_id,
        !(1 <= tower_id <= 5) ==> preset_id(tower_id) == 1,
        preset_layers(preset_id(tower_id)) >= 2,
{
}

/// The preset table, tower by tower (towers 1 to 5 at positions 0 to 4):
/// the layer counts 5, 6, 3, 2, 12, and the names, build dates and
/// materials listed here; in particular tower 1 has 5 layers, so its full
/// FEM mesh has (5 + 1) x 20 = 120 nodes.
pub proof fn lemma_preset_table(tower_id: u32)
    requires
        1 <= tower_id <= 5,
    ensures
        ({
            let k = tower_id - 1;
            &&& preset_layers(tower_id) == seq![5u8, 6u8, 3u8, 2u8, 12u8][k]
            &&& preset_name(tower_id) == seq![
                "临冲吕公车-一号"@,
                "临冲吕公车-二号"@,
                "云梯车"@,
                "冲车"@,
                "现代塔吊"@,
            ][k]
            &&& preset_build_date(tower_id) == seq![
                "1450-03-15"@,
                "1452-07-22"@,
                "1368-01-01"@,
                "0350-01-01"@,
                "2024-01-01"@,
            ][k]
            &&& preset_material(tower_id) == seq![
                "松木+铁木"@,
                "柏木+楠木"@,
                "松木+竹"@,
                "硬木+铁箍"@,
                "Q345B钢材"@,
            ][k]
        }),
        (preset_layers(preset_id(1)) + 1) * 20 == 120,
{
}

} // verus!
