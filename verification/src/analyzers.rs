//! The analyzer handles and the integer-valued rules they carry: the soil
//! name fallback of the foundation analyzer, the VR viewpoint transition
//! times, and the size of the FEM worker pool.
use vstd::prelude::*;
use crate::models::{
    SoilType, soil_from_code, unicode_lowercase, ascii_lower, ascii_lower_char, is_ascii_text,
    lemma_soil_name_round_trip,
};
use crate::text::texts;

verus! {

/// Moat-side foundation analysis.
pub struct MoatAnalyzer;

/// Foundation analysis next to a moat, on a chosen soil.
pub struct FoundationAnalyzer {
    moat: MoatAnalyzer,
}

/// Ground bearing and passability analysis.
pub struct GroundAnalyzer;

/// Structural stability analysis.
pub struct StabilityAnalyzer;

/// The VR climbing experience of a tower.
pub struct VrSiegeTower {}

impl MoatAnalyzer {
    pub fn new() -> MoatAnalyzer {
        MoatAnalyzer
    }
}

impl Default for MoatAnalyzer {
    fn default() -> MoatAnalyzer {
        MoatAnalyzer::new()
    }
}

impl GroundAnalyzer {
    pub fn new() -> GroundAnalyzer {
        GroundAnalyzer
    }
}

impl Default for GroundAnalyzer {
    fn default() -> GroundAnalyzer {
        GroundAnalyzer::new()
    }
}

impl StabilityAnalyzer {
    pub fn new() -> StabilityAnalyzer {
        StabilityAnalyzer
    }
}

impl Default for StabilityAnalyzer {
    fn default() -> StabilityAnalyzer {
        StabilityAnalyzer::new()
    }
}

/// The soil type a name gives once lower-cased as `lowered`, falling back
/// to loam for a name that is not a soil type.
pub open spec fn soil_or_loam(lowered: Seq<char>) -> SoilType {
    match soil_from_code(lowered) {
        Some(t) => t,
        None => SoilType::Loam,
    }
}

impl FoundationAnalyzer {
    pub fn new() -> FoundationAnalyzer {
        FoundationAnalyzer { moat: MoatAnalyzer::new() }
    }

    /// The moat analyzer this foundation analyzer delegates to.
    pub fn moat(&self) -> &MoatAnalyzer {
        &self.moat
    }

    /// The soil type named by `input`, in any case; loam when `input` names
    /// none.
    pub fn parse_soil_type(input: &str) -> (t: SoilType)
        ensures
            t == soil_or_loam(unicode_lowercase(input@)),
            is_ascii_text(input@) ==> t == soil_or_loam(ascii_lower(input@)),
    {
        match SoilType::parse_name(input) {
            Ok(t) => t,
            Err(_) => SoilType::Loam,
        }
    }
}

/// Parsing a soil type's own name gives that type back; on ASCII text,
/// parsing ignores case (lower-casing again changes nothing, and the
/// lower-cased text is ASCII too, so `parse_soil_type(s)` and
/// `parse_soil_type(lower-cased s)` agree); and a name that is no soil type
/// gives loam. For any text, once its lower-cased form `s` names a soil
/// type, `s` is ASCII and already lower case, so parsing `s` again gives the
/// same type: `parse_soil_type(x) == parse_soil_type(&x.to_lowercase())`
/// whenever the latter names a soil type.
pub proof fn lemma_parse_soil_type_laws(t: SoilType, s: Seq<char>)
    ensures
        soil_from_code(s) is Some ==> is_ascii_text(s) && soil_or_loam(ascii_lower(s))
            == soil_or_loam(s),
        soil_or_loam(ascii_lower(t.code())) == t,
        is_ascii_text(s) ==> is_ascii_text(ascii_lower(s)) && ascii_lower(ascii_lower(s))
            == ascii_lower(s),
        is_ascii_text(s) ==> soil_or_loam(ascii_lower(ascii_lower(s))) == soil_or_loam(
            ascii_lower(s),
        ),
        soil_from_code(ascii_lower(s)) is None ==> soil_or_loam(ascii_lower(s)) == SoilType::Loam,
{
    lemma_soil_name_round_trip(t);
    if soil_from_code(s) is Some {
        let u = soil_from_code(s)->0;
        lemma_soil_name_round_trip(u);
        assert(s == u.code());
    }
    if is_ascii_text(s) {
        let l = ascii_lower(s);
        assert forall|i: int| 0 <= i < l.len() implies (l[i] as u32) < 128 by {
            assert(l[i] == ascii_lower_char(s[i]));
            assert((s[i] as u32) < 128);
        }
        assert(ascii_lower(l) =~= l);
    }
}

impl Default for FoundationAnalyzer {
    fn default() -> FoundationAnalyzer {
        FoundationAnalyzer::new()
    }
}


/// What a moat-side foundation analysis found, in the terms its
/// recommendations use.
pub struct MoatFindings {
    /// The overall safety factor is below 1.5.
    pub overall_low: bool,
    /// The slope stability factor is below 2.0.
    pub slope_weak: bool,
    /// The bearing safety factor is below 2.0.
    pub bearing_weak: bool,
    /// The lateral displacement in millimetres, written to one decimal,
    /// when it exceeds 30 mm.
    pub lateral_excess: Option<String>,
    /// The settlement increase exceeds 50 %.
    pub settlement_heavy: bool,
    /// The moat is nearer than 5 m.
    pub moat_close: bool,
    /// The overall safety factor is at least 3.0 and the slope factor at
    /// least 2.5.
    pub all_safe: bool,
}

/// `seq![t]` when `c` holds, else nothing.
pub open spec fn when(c: bool, t: Seq<char>) -> Seq<Seq<char>> {
    if c {
        seq![t]
    } else {
        Seq::empty()
    }
}

/// The recommendation for an excessive lateral displacement.
pub open spec fn lateral_advice(mm: Seq<char>) -> Seq<char> {
    "侧向位移偏大("@ + mm + "mm)，建议增加基础埋深或设置地锚"@
}

/// The recommendations for each finding, in order.
pub open spec fn findings_advice(f: MoatFindings) -> Seq<Seq<char>> {
    when(f.overall_low, "整体安全系数不足，建议增加基础面积或减轻结构荷载"@) + when(
        f.slope_weak,
        "护坡稳定性不足，建议增设挡土墙或进行边坡加固"@,
    ) + when(f.bearing_weak, "地基承载力安全裕度不足，建议采用桩基础或换填法处理地基"@)
        + match f.lateral_excess {
        Some(mm) => seq![lateral_advice(mm@)],
        None => Seq::empty(),
    } + when(f.settlement_heavy, "沉降增幅较大，建议进行地基预压或采用复合地基方案"@) + when(
        f.moat_close,
        "塔基距护城河过近，建议增加安全距离或设置防护结构"@,
    ) + when(f.all_safe, "结构整体安全，可正常使用"@)
}

/// The recommendation when no finding calls for one.
pub open spec fn routine_advice() -> Seq<char> {
    "当前条件下结构基本安全，建议定期监测"@
}

/// The recommendations: one per finding, or the routine one when there is
/// none.
pub open spec fn recommendation_texts(f: MoatFindings) -> Seq<Seq<char>> {
    if findings_advice(f).len() == 0 {
        seq![routine_advice()]
    } else {
        findings_advice(f)
    }
}

fn push_when(out: &mut Vec<String>, c: bool, t: &str)
    ensures
        texts(final(out)@) == texts(old(out)@) + when(c, t@),
{
    if c {
        out.push(String::from_str(t));
        assert(texts(out@) =~= texts(old(out)@) + when(c, t@));
    } else {
        assert(texts(out@) =~= texts(old(out)@) + when(c, t@));
    }
}

impl MoatAnalyzer {
    /// The recommendations a moat analysis gives for its findings.
    pub fn generate_recommendations(&self, f: &MoatFindings) -> (recs: Vec<String>)
        ensures
            texts(recs@) == recommendation_texts(*f),
    {
        let mut recs: Vec<String> = Vec::new();
        assert(texts(recs@) =~= Seq::<Seq<char>>::empty());
        push_when(&mut recs, f.overall_low, "整体安全系数不足，建议增加基础面积或减轻结构荷载");
        push_when(&mut recs, f.slope_weak, "护坡稳定性不足，建议增设挡土墙或进行边坡加固");
        push_when(&mut recs, f.bearing_weak, "地基承载力安全裕度不足，建议采用桩基础或换填法处理地基");
        let ghost before = texts(recs@);
        match &f.lateral_excess {
            Some(mm) => {
                let mut msg = String::from_str("侧向位移偏大(");
                msg.append(mm.as_str());
                msg.append("mm)，建议增加基础埋深或设置地锚");
                recs.push(msg);
                assert(texts(recs@) =~= before + seq![lateral_advice(mm@)]);
            },
            None => {
                assert(texts(recs@) =~= before + Seq::<Seq<char>>::empty());
            },
        }
        push_when(&mut recs, f.settlement_heavy, "沉降增幅较大，建议进行地基预压或采用复合地基方案");
        push_when(&mut recs, f.moat_close, "塔基距护城河过近，建议增加安全距离或设置防护结构");
        push_when(&mut recs, f.all_safe, "结构整体安全，可正常使用");
        assert(texts(recs@) == findings_advice(*f));
        if recs.len() == 0 {
            recs.push(String::from_str("当前条件下结构基本安全，建议定期监测"));
            assert(texts(recs@) =~= seq![routine_advice()]);
        }
        recs
    }
}

/// A moat analysis always recommends something, and gives the routine
/// recommendation exactly when no finding calls for another.
pub proof fn lemma_recommendations_never_empty(f: MoatFindings)
    ensures
        recommendation_texts(f).len() >= 1,
        (recommendation_texts(f) == seq![routine_advice()]) <==> (findings_advice(f).len() == 0),
{
    if findings_advice(f).len() > 0 && recommendation_texts(f) == seq![routine_advice()] {
        let a = findings_advice(f);
        assert(a.len() == 1);
        reveal_strlit("当前条件下结构基本安全，建议定期监测");
        reveal_strlit("整体安全系数不足，建议增加基础面积或减轻结构荷载");
        reveal_strlit("护坡稳定性不足，建议增设挡土墙或进行边坡加固");
        reveal_strlit("地基承载力安全裕度不足，建议采用桩基础或换填法处理地基");
        reveal_strlit("侧向位移偏大(");
        reveal_strlit("沉降增幅较大，建议进行地基预压或采用复合地基方案");
        reveal_strlit("塔基距护城河过近，建议增加安全距离或设置防护结构");
        reveal_strlit("结构整体安全，可正常使用");
        assert(a[0] == routine_advice());
        assert(a[0][0] == routine_advice()[0]);
    }
}

/// An element of a joined list is an element of one of its parts.
proof fn lemma_contains_join(a: Seq<Seq<char>>, b: Seq<Seq<char>>, x: Seq<char>)
    ensures
        (a + b).contains(x) <==> (a.contains(x) || b.contains(x)),
{
    if (a + b).contains(x) {
        let k = choose|k: int| 0 <= k < (a + b).len() && (a + b)[k] == x;
        if k < a.len() {
            assert(a[k] == x);
        } else {
            assert(b[k - a.len()] == x);
        }
    }
    if a.contains(x) {
        let k = choose|k: int| 0 <= k < a.len() && a[k] == x;
        assert((a + b)[k] == x);
    } else if b.contains(x) {
        let k = choose|k: int| 0 <= k < b.len() && b[k] == x;
        assert((a + b)[a.len() + k] == x);
    }
}

/// Each finding of a moat analysis brings its own recommendation, and only
/// a finding brings one: the recommendations hold the text of a finding
/// exactly when that finding is made (the lateral one naming the measured
/// displacement), and they hold the routine "basically safe, monitor
/// regularly" text exactly when no finding is made.
pub proof fn lemma_recommendations_follow_findings(f: MoatFindings)
    ensures
        ({
            let r = recommendation_texts(f);
            let none = !f.overall_low && !f.slope_weak && !f.bearing_weak && f.lateral_excess is None
                && !f.settlement_heavy && !f.moat_close && !f.all_safe;
            &&& r.contains("整体安全系数不足，建议增加基础面积或减轻结构荷载"@) <==> f.overall_low
            &&& r.contains("护坡稳定性不足，建议增设挡土墙或进行边坡加固"@) <==> f.slope_weak
            &&& r.contains("地基承载力安全裕度不足，建议采用桩基础或换填法处理地基"@) <==> f.bearing_weak
            &&& (forall|mm: String|
                #[trigger] r.contains("侧向位移偏大("@ + mm@ + "mm)，建议增加基础埋深或设置地锚"@)
                    <== f.lateral_excess == Some(mm))
            &&& (forall|t: Seq<char>|
                r.contains(t) && t.len() > 0 && t[0] == '侧' ==> f.lateral_excess is Some)
            &&& r.contains("沉降增幅较大，建议进行地基预压或采用复合地基方案"@) <==> f.settlement_heavy
            &&& r.contains("塔基距护城河过近，建议增加安全距离或设置防护结构"@) <==> f.moat_close
            &&& r.contains("结构整体安全，可正常使用"@) <==> f.all_safe
            &&& r.contains("当前条件下结构基本安全，建议定期监测"@) <==> none
            &&& none ==> r.len() == 1
        }),
{
    reveal_strlit("整体安全系数不足，建议增加基础面积或减轻结构荷载");
    reveal_strlit("护坡稳定性不足，建议增设挡土墙或进行边坡加固");
    reveal_strlit("地基承载力安全裕度不足，建议采用桩基础或换填法处理地基");
    reveal_strlit("侧向位移偏大(");
    reveal_strlit("mm)，建议增加基础埋深或设置地锚");
    reveal_strlit("沉降增幅较大，建议进行地基预压或采用复合地基方案");
    reveal_strlit("塔基距护城河过近，建议增加安全距离或设置防护结构");
    reveal_strlit("结构整体安全，可正常使用");
    reveal_strlit("当前条件下结构基本安全，建议定期监测");
    let t1 = "整体安全系数不足，建议增加基础面积或减轻结构荷载"@;
    let t2 = "护坡稳定性不足，建议增设挡土墙或进行边坡加固"@;
    let t3 = "地基承载力安全裕度不足，建议采用桩基础或换填法处理地基"@;
    let t5 = "沉降增幅较大，建议进行地基预压或采用复合地基方案"@;
    let t6 = "塔基距护城河过近，建议增加安全距离或设置防护结构"@;
    let t7 = "结构整体安全，可正常使用"@;
    let t8 = "当前条件下结构基本安全，建议定期监测"@;
    let a1 = when(f.overall_low, t1);
    let a2 = when(f.slope_weak, t2);
    let a3 = when(f.bearing_weak, t3);
    let a4: Seq<Seq<char>> = match f.lateral_excess {
        Some(mm) => seq![lateral_advice(mm@)],
        None => Seq::empty(),
    };
    let a5 = when(f.settlement_heavy, t5);
    let a6 = when(f.moat_close, t6);
    let a7 = when(f.all_safe, t7);
    let fa = findings_advice(f);
    assert(fa == a1 + a2 + a3 + a4 + a5 + a6 + a7);
    assert forall|x: Seq<char>| #[trigger] fa.contains(x) <==> (a1.contains(x) || a2.contains(x)
        || a3.contains(x) || a4.contains(x) || a5.contains(x) || a6.contains(x) || a7.contains(x)) by {
        lemma_contains_join(a1, a2, x);
        lemma_contains_join(a1 + a2, a3, x);
        lemma_contains_join(a1 + a2 + a3, a4, x);
        lemma_contains_join(a1 + a2 + a3 + a4, a5, x);
        lemma_contains_join(a1 + a2 + a3 + a4 + a5, a6, x);
        lemma_contains_join(a1 + a2 + a3 + a4 + a5 + a6, a7, x);
    }
    // Every piece holds at most its one text, and the texts start with
    // different characters.
    assert forall|x: Seq<char>| #[trigger] a4.contains(x) implies x.len() > 0 && x[0] == '侧' by {
        if let Some(mm) = f.lateral_excess {
            assert(x == lateral_advice(mm@));
            assert(lateral_advice(mm@)[0] == '侧');
        }
    }
    assert(a1.contains(t1) <==> f.overall_low) by {
        if a1.contains(t1) {
            assert(a1.len() > 0);
        }
        if f.overall_low {
            assert(a1[0] == t1);
        }
    }
    assert(a2.contains(t2) <==> f.slope_weak) by {
        if f.slope_weak {
            assert(a2[0] == t2);
        }
    }
    assert(a3.contains(t3) <==> f.bearing_weak) by {
        if f.bearing_weak {
            assert(a3[0] == t3);
        }
    }
    assert(a5.contains(t5) <==> f.settlement_heavy) by {
        if f.settlement_heavy {
            assert(a5[0] == t5);
        }
    }
    assert(a6.contains(t6) <==> f.moat_close) by {
        if f.moat_close {
            assert(a6[0] == t6);
        }
    }
    assert(a7.contains(t7) <==> f.all_safe) by {
        if f.all_safe {
            assert(a7[0] == t7);
        }
    }
    assert(t1[0] != t2[0] && t1[0] != t3[0] && t1[0] != t5[0] && t1[0] != t6[0] && t1[0] != t7[0]
        && t1[0] != t8[0] && t1[0] != '侧');
    assert(t2[0] != t3[0] && t2[0] != t5[0] && t2[0] != t6[0] && t2[0] != t7[0] && t2[0] != t8[0]
        && t2[0] != '侧');
    assert(t3[0] != t5[0] && t3[0] != t6[0] && t3[0] != t7[0] && t3[0] != t8[0] && t3[0] != '侧');
    assert(t5[0] != t6[0] && t5[0] != t7[0] && t5[0] != t8[0] && t5[0] != '侧');
    assert(t6[0] != t7[0] && t6[0] != t8[0] && t6[0] != '侧');
    assert(t7[0] != t8[0] && t7[0] != '侧' && t8[0] != '侧');
    if let Some(mm) = f.lateral_excess {
        assert(a4[0] == lateral_advice(mm@));
        assert(a4.contains(lateral_advice(mm@)));
        assert(fa.contains(lateral_advice(mm@)));
    }
    let none = !f.overall_low && !f.slope_weak && !f.bearing_weak && f.lateral_excess is None
        && !f.settlement_heavy && !f.moat_close && !f.all_safe;
    if none {
        assert(fa.len() == 0);
        assert(recommendation_texts(f) == seq![t8]);
        assert(recommendation_texts(f)[0] == t8);
    } else {
        assert(fa.len() > 0);
        assert(!fa.contains(t8));
    }
}

/// Milliseconds a viewpoint transition takes at an acrophobia risk level:
/// 500 up to level 2, 1000 at 3, 1500 at 4, 2000 above.
pub open spec fn transition_ms(acrophobia_level: u8) -> u32 {
    if acrophobia_level <= 2 {
        500
    } else if acrophobia_level == 3 {
        1000
    } else if acrophobia_level == 4 {
        1500
    } else {
        2000
    }
}

impl VrSiegeTower {
    pub fn new() -> VrSiegeTower {
        VrSiegeTower {  }
    }

    /// Milliseconds a viewpoint transition takes at an acrophobia risk
    /// level.
    pub fn compute_transition_duration(acrophobia_level: u8) -> (ms: u32)
        ensures
            ms == transition_ms(acrophobia_level),
    {
        if acrophobia_level <= 2 {
            500
        } else if acrophobia_level == 3 {
            1000
        } else if acrophobia_level == 4 {
            1500
        } else {
            2000
        }
    }
}

impl Default for VrSiegeTower {
    fn default() -> VrSiegeTower {
        VrSiegeTower::new()
    }
}

/// Transitions never get shorter as the acrophobia risk rises, and stay
/// between 500 and 2000 milliseconds.
pub proof fn lemma_transition_monotonic(a: u8, b: u8)
    requires
        a <= b,
    ensures
        transition_ms(a) <= transition_ms(b),
        500 <= transition_ms(a) <= 2000,
{
}

/// The size of the FEM worker pool: the parallelism the machine reports
/// (4 when it reports none), but at least 2.
pub fn default_pool_size(available: Option<usize>) -> (n: usize)
    ensures
        n == (match available {
            Some(a) => if a > 2 {
                a
            } else {
                2
            },
            None => 4,
        }),
{
    let a = match available {
        Some(a) => a,
        None => 4,
    };
    if a > 2 {
        a
    } else {
        2
    }
}

} // verus!
