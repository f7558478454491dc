//! The vocabularies the backend speaks in: soil types, alert types and
//! tower categories, with their names and the dynasty of each preset tower.
use vstd::prelude::*;
use crate::text::same_text;

verus! {

/// Soil on which a tower stands.
#[derive(Debug, Clone, Copy, PartialEq, Eq, Structural)]
pub enum SoilType {
    Sand,
    Clay,
    Silt,
    Rock,
    Loam,
}

/// Whether every character of `s` is ASCII.
pub open spec fn is_ascii_text(s: Seq<char>) -> bool {
    forall|i: int| 0 <= i < s.len() ==> (s[i] as u32) < 128
}

/// `c` with an ASCII upper-case letter turned into its lower-case letter.
pub open spec fn ascii_lower_char(c: char) -> char {
    if 'A' <= c && c <= 'Z' {
        ((c as u32) + 32) as char
    } else {
        c
    }
}

/// `s` with its ASCII upper-case letters turned into lower case.
pub open spec fn ascii_lower(s: Seq<char>) -> Seq<char> {
    s.map_values(|c: char| ascii_lower_char(c))
}

/// What `str::to_lowercase` returns for a text: its Unicode lower-case
/// mapping.
pub uninterp spec fn unicode_lowercase(s: Seq<char>) -> Seq<char>;

/// `str::to_lowercase`. Its result is the Unicode lower-case mapping of the
/// input, a function of the input alone; on ASCII input that mapping only
/// turns `A`..`Z` into `a`..`z`.
#[verifier::external_body]
fn to_lowercase(s: &str) -> (r: String)
    ensures
        r@ == unicode_lowercase(s@),
        is_ascii_text(s@) ==> r@ == ascii_lower(s@),
{
    s.to_lowercase()
}

/// The soil type that a lower-case name stands for.
pub open spec fn soil_from_code(s: Seq<char>) -> Option<SoilType> {
    if s == "sand"@ {
        Some(SoilType::Sand)
    } else if s == "clay"@ {
        Some(SoilType::Clay)
    } else if s == "silt"@ {
        Some(SoilType::Silt)
    } else if s == "rock"@ {
        Some(SoilType::Rock)
    } else if s == "loam"@ {
        Some(SoilType::Loam)
    } else {
        None
    }
}

/// The message that rejects an unknown soil name.
pub open spec fn unknown_soil_message(name: Seq<char>) -> Seq<char> {
    "未知土壤类型: "@ + name
}

/// What parsing `name` gives when its lower-case form is `lowered`.
pub open spec fn soil_parse_outcome(name: Seq<char>, lowered: Seq<char>, r: Result<SoilType, String>) -> bool {
    match soil_from_code(lowered) {
        Some(t) => r == Ok::<SoilType, String>(t),
        None => r is Err && r->Err_0@ == unknown_soil_message(name),
    }
}

impl SoilType {
    /// The lower-case name of the soil type.
    pub open spec fn code(self) -> Seq<char> {
        match self {
            SoilType::Sand => "sand"@,
            SoilType::Clay => "clay"@,
            SoilType::Silt => "silt"@,
            SoilType::Rock => "rock"@,
            SoilType::Loam => "loam"@,
        }
    }

    /// The lower-case name of the soil type.
    pub fn as_str(&self) -> (s: &'static str)
        ensures
            s@ == self.code(),
    {
        match self {
            SoilType::Sand => "sand",
            SoilType::Clay => "clay",
            SoilType::Silt => "silt",
            SoilType::Rock => "rock",
            SoilType::Loam => "loam",
        }
    }

    /// Decides the soil type of `name` from its lower-case form `lowered`:
    /// one of the five names, or an error that quotes `name`.
    pub fn classify_name(name: &str, lowered: &str) -> (r: Result<SoilType, String>)
        ensures
            soil_parse_outcome(name@, lowered@, r),
    {
        if same_text(lowered, "sand") {
            Ok(SoilType::Sand)
        } else if same_text(lowered, "clay") {
            Ok(SoilType::Clay)
        } else if same_text(lowered, "silt") {
            Ok(SoilType::Silt)
        } else if same_text(lowered, "rock") {
            Ok(SoilType::Rock)
        } else if same_text(lowered, "loam") {
            Ok(SoilType::Loam)
        } else {
            let mut msg = String::from_str("未知土壤类型: ");
            msg.append(name);
            Err(msg)
        }
    }

    /// Parses a soil name without regard to case.
    pub fn parse_name(name: &str) -> (r: Result<SoilType, String>)
        ensures
            soil_parse_outcome(name@, unicode_lowercase(name@), r),
            is_ascii_text(name@) ==> soil_parse_outcome(name@, ascii_lower(name@), r),
    {
        let lowered = to_lowercase(name);
        SoilType::classify_name(name, lowered.as_str())
    }
}

impl core::str::FromStr for SoilType {
    type Err = String;

    /// Parses a soil name without regard to case, as `parse_name` does.
    fn from_str(s: &str) -> (r: Result<SoilType, String>)
        ensures
            soil_parse_outcome(s@, unicode_lowercase(s@), r),
            is_ascii_text(s@) ==> soil_parse_outcome(s@, ascii_lower(s@), r),
    {
        SoilType::parse_name(s)
    }
}

/// Each soil type's name is ASCII, already lower case, and parses back to
/// that soil type: whatever `parse_name` returns on it is `Ok` of the type.
pub proof fn lemma_soil_name_round_trip(t: SoilType)
    ensures
        is_ascii_text(t.code()),
        ascii_lower(t.code()) == t.code(),
        soil_from_code(t.code()) == Some(t),
        forall|r: Result<SoilType, String>|
            #[trigger] soil_parse_outcome(t.code(), ascii_lower(t.code()), r) ==> r == Ok::<
                SoilType,
                String,
            >(t),
{
    reveal_strlit("sand");
    reveal_strlit("clay");
    reveal_strlit("silt");
    reveal_strlit("rock");
    reveal_strlit("loam");
    assert(ascii_lower(t.code()) =~= t.code());
    assert("sand"@[0] != "clay"@[0]);
    assert("sand"@[0] != "silt"@[1]);
    assert("silt"@[1] != "sand"@[1]);
    assert("rock"@[0] != "sand"@[0]);
    assert("rock"@[0] != "clay"@[0]);
    assert("rock"@[0] != "silt"@[0]);
    assert("loam"@[0] != "sand"@[0]);
    assert("loam"@[0] != "clay"@[0]);
    assert("loam"@[0] != "silt"@[0]);
    assert("loam"@[0] != "rock"@[0]);
}

/// Distinct soil types have distinct names.
pub proof fn lemma_soil_names_distinct(a: SoilType, b: SoilType)
    ensures
        a != b ==> a.code() != b.code(),
{
    lemma_soil_name_round_trip(a);
    lemma_soil_name_round_trip(b);
}

/// Kind of an alert event.
#[derive(Debug, Clone, Copy, PartialEq, Eq, Structural)]
pub enum AlertType {
    TiltExceed,
    StressCritical,
    WindOverload,
    GroundFailure,
    VibrationExceed,
    StructureInstability,
}

impl AlertType {
    /// The snake-case code of the alert type.
    pub open spec fn code(self) -> Seq<char> {
        match self {
            AlertType::TiltExceed => "tilt_exceed"@,
            AlertType::StressCritical => "stress_critical"@,
            AlertType::WindOverload => "wind_overload"@,
            AlertType::GroundFailure => "ground_failure"@,
            AlertType::VibrationExceed => "vibration_exceed"@,
            AlertType::StructureInstability => "structure_instability"@,
        }
    }

    /// The human-readable description of the alert type.
    pub open spec fn description_text(self) -> Seq<char> {
        match self {
            AlertType::TiltExceed => "倾斜角度超限"@,
            AlertType::StressCritical => "应力接近临界值"@,
            AlertType::WindOverload => "风荷载超载"@,
            AlertType::GroundFailure => "地面承载失效"@,
            AlertType::VibrationExceed => "振动超限"@,
            AlertType::StructureInstability => "结构失稳预警"@,
        }
    }

    /// The snake-case code of the alert type.
    pub fn as_str(&self) -> (s: &'static str)
        ensures
            s@ == self.code(),
    {
        match self {
            AlertType::TiltExceed => "tilt_exceed",
            AlertType::StressCritical => "stress_critical",
            AlertType::WindOverload => "wind_overload",
            AlertType::GroundFailure => "ground_failure",
            AlertType::VibrationExceed => "vibration_exceed",
            AlertType::StructureInstability => "structure_instability",
        }
    }

    /// The human-readable description of the alert type.
    pub fn description(&self) -> (s: &'static str)
        ensures
            s@ == self.description_text(),
    {
        match self {
            AlertType::TiltExceed => "倾斜角度超限",
            AlertType::StressCritical => "应力接近临界值",
            AlertType::WindOverload => "风荷载超载",
            AlertType::GroundFailure => "地面承载失效",
            AlertType::VibrationExceed => "振动超限",
            AlertType::StructureInstability => "结构失稳预警",
        }
    }
}

/// Distinct alert types have distinct codes, so a stored code names its
/// alert type.
pub proof fn lemma_alert_codes_distinct(a: AlertType, b: AlertType)
    ensures
        a != b ==> a.code() != b.code(),
{
    reveal_strlit("tilt_exceed");
    reveal_strlit("stress_critical");
    reveal_strlit("wind_overload");
    reveal_strlit("ground_failure");
    reveal_strlit("vibration_exceed");
    reveal_strlit("structure_instability");
    if a != b && a.code() == b.code() {
        assert(a.code().len() == b.code().len());
        assert(a.code()[0] == b.code()[0]);
        assert(a.code()[1] == b.code()[1]);
    }
}

/// Construction family of a tower.
#[derive(Debug, Clone, Copy, PartialEq, Eq, Structural)]
pub enum TowerCategory {
    AncientWooden,
    ModernSteel,
}

/// The era of the preset tower with the given id.
pub open spec fn dynasty_text(tower_id: u32) -> Seq<char> {
    if tower_id == 1 || tower_id == 2 {
        "明朝(景泰)"@
    } else if tower_id == 3 {
        "明朝(洪武)"@
    } else if tower_id == 4 {
        "三国(魏)"@
    } else if tower_id == 5 {
        "现代"@
    } else {
        "未知"@
    }
}

/// The era of the preset tower with the given id.
pub fn dynasty_for_tower(tower_id: u32) -> (s: String)
    ensures
        s@ == dynasty_text(tower_id),
{
    if tower_id == 1 || tower_id == 2 {
        String::from_str("明朝(景泰)")
    } else if tower_id == 3 {
        String::from_str("明朝(洪武)")
    } else if tower_id == 4 {
        String::from_str("三国(魏)")
    } else if tower_id == 5 {
        String::from_str("现代")
    } else {
        String::from_str("未知")
    }
}

/// The construction family of the preset tower with the given id: only
/// tower 5 is modern steel.
pub fn category_for_tower(tower_id: u32) -> (c: TowerCategory)
    ensures
        c == (if tower_id == 5 {
            TowerCategory::ModernSteel
        } else {
            TowerCategory::AncientWooden
        }),
{
    if tower_id == 5 {
        TowerCategory::ModernSteel
    } else {
        TowerCategory::AncientWooden
    }
}

} // verus!
