//! Building a random rune page out of the client's rune styles, one random
//! number at a time: a primary style, a perk for each of its slots but the
//! last three, a secondary style that the primary allows, which of the
//! secondary style's splashable slots to leave out, and a perk for each of
//! its other slots but the keystone.

use vstd::prelude::*;
use crate::json::{Json, JsonNumber, text_is};

verus! {

/// A rune page as the client takes it.
pub struct RunePage {
    pub name: String,
    pub perk_ids: Vec<i64>,
    pub primary_style_id: i64,
    pub sub_style_id: i64,
}

/// A rune page with its text and list seen as sequences.
pub struct RunePageView {
    pub name: Seq<char>,
    pub perk_ids: Seq<i64>,
    pub primary_style_id: i64,
    pub sub_style_id: i64,
}

impl View for RunePage {
    type V = RunePageView;

    open spec fn view(&self) -> RunePageView {
        RunePageView {
            name: self.name@,
            perk_ids: self.perk_ids@,
            primary_style_id: self.primary_style_id,
            sub_style_id: self.sub_style_id,
        }
    }
}

/// Where the building of a page stands.
#[derive(Clone, Copy, PartialEq, Eq, Structural)]
pub enum RunePhase {
    /// Drawing the perk of primary slot `slot`, or the secondary style once
    /// every primary slot but the last three has its perk.
    Primary { slot: usize },
    /// The secondary style is `secondary`; next comes the splashable slot to leave out.
    Ignore { secondary: usize },
    /// At slot `slot` of the secondary style; `seen` splashable slots passed,
    /// the `ignore`-th of them is left out.
    Secondary { secondary: usize, ignore: usize, slot: usize, seen: usize },
}

/// A page under construction.
pub struct RuneBuilder {
    styles: Vec<Json>,
    primary: usize,
    phase: RunePhase,
    perks: Vec<i64>,
}

/// A page under construction, seen as sequences.
pub struct RuneBuilderView {
    pub styles: Seq<Json>,
    pub primary: usize,
    pub phase: RunePhase,
    pub perks: Seq<i64>,
}

impl View for RuneBuilder {
    type V = RuneBuilderView;

    closed spec fn view(&self) -> RuneBuilderView {
        RuneBuilderView {
            styles: self.styles@,
            primary: self.primary,
            phase: self.phase,
            perks: self.perks@,
        }
    }
}

/// What one step of building makes.
pub enum RuneStep {
    Building(RuneBuilder),
    Done(RunePage),
    /// The styles are not shaped as the client serves them.
    Failed,
}

/// What one step of building makes, seen as sequences.
pub enum RuneStepView {
    Building(RuneBuilderView),
    Done(RunePageView),
    Failed,
}

impl View for RuneStep {
    type V = RuneStepView;

    open spec fn view(&self) -> RuneStepView {
        match self {
            RuneStep::Building(b) => RuneStepView::Building(b@),
            RuneStep::Done(p) => RuneStepView::Done(p@),
            RuneStep::Failed => RuneStepView::Failed,
        }
    }
}

/// The JSON value of an integer, as `serde_json::Value::from(i64)` makes it.
pub open spec fn int_json(x: i64) -> Json {
    if x >= 0 {
        Json::Number(JsonNumber::PosInt(x as u64))
    } else {
        Json::Number(JsonNumber::NegInt(x))
    }
}

/// Whether `doc` is the document that creates the page `page`: the members
/// `name`, `selectedPerkIds`, `current` (true), `primaryStyleId` and
/// `subStyleId`, in that order.
pub open spec fn is_page_document(page: RunePageView, doc: Json) -> bool {
    doc matches Json::Object(members) && {
        let m = members@;
        &&& m.len() == 5
        &&& m[0].0@ == "name"@
        &&& (m[0].1 matches Json::Str(n) && n@ == page.name)
        &&& m[1].0@ == "selectedPerkIds"@
        &&& (m[1].1 matches Json::Array(ids) && ids@ == page.perk_ids.map_values(|x: i64| int_json(x)))
        &&& m[2].0@ == "current"@
        &&& m[2].1 == Json::Bool(true)
        &&& m[3].0@ == "primaryStyleId"@
        &&& m[3].1 == int_json(page.primary_style_id)
        &&& m[4].0@ == "subStyleId"@
        &&& m[4].1 == int_json(page.sub_style_id)
    }
}

/// Whether a builder's counters are in range.
pub open spec fn counters_ok(phase: RunePhase) -> bool {
    match phase {
        RunePhase::Secondary { seen, slot, .. } => seen <= slot,
        _ => true,
    }
}

/// The style at `i`.
pub open spec fn style_at(styles: Seq<Json>, i: int) -> Option<Json> {
    if 0 <= i < styles.len() {
        Some(styles[i])
    } else {
        None
    }
}

/// The slots of a style.
pub open spec fn slots_of(style: Json) -> Option<Seq<Json>> {
    match style.member("slots"@) {
        Some(s) => s.items(),
        None => None,
    }
}

/// The perk drawn with `r` out of a slot.
pub open spec fn perk_of(slot: Json, r: usize) -> Option<i64> {
    match slot.member("perks"@) {
        Some(p) => match p.items() {
            Some(perks) => if perks.len() > 0 {
                perks[(r as int) % (perks.len() as int)].i64_value()
            } else {
                None
            },
            None => None,
        },
        None => None,
    }
}

/// The first style whose `id` is the integer `id`; `None` where a style
/// before it has no integer id, where `id` is no integer, or where none matches.
pub open spec fn style_with_id(styles: Seq<Json>, id: Json) -> Option<int>
    decreases styles.len(),
{
    if styles.len() == 0 {
        None
    } else {
        match styles[0].member("id"@) {
            Some(j) => match (j.i64_value(), id.i64_value()) {
                (Some(a), Some(b)) => if a == b {
                    Some(0)
                } else {
                    match style_with_id(styles.drop_first(), id) {
                        Some(k) => Some(k + 1),
                        None => None,
                    }
                },
                _ => None,
            },
            None => None,
        }
    }
}

/// The secondary style drawn with `r` among those the primary style allows.
pub open spec fn secondary_of(styles: Seq<Json>, primary: Json, r: usize) -> Option<int> {
    match primary.member("allowedSubStyles"@) {
        Some(a) => match a.items() {
            Some(allowed) => if allowed.len() > 0 {
                style_with_id(styles, allowed[(r as int) % (allowed.len() as int)])
            } else {
                None
            },
            None => None,
        },
        None => None,
    }
}

/// The name of a style.
pub open spec fn style_name(style: Json) -> Option<Seq<char>> {
    match style.member("name"@) {
        Some(n) => n.text(),
        None => None,
    }
}

/// The id of a style.
pub open spec fn style_id(style: Json) -> Option<i64> {
    match style.member("id"@) {
        Some(n) => n.i64_value(),
        None => None,
    }
}

/// The page named after its two styles, `primary & secondary`.
pub open spec fn finished_page(primary: Json, secondary: Json, perks: Seq<i64>) -> Option<RunePageView> {
    match (style_name(primary), style_name(secondary), style_id(primary), style_id(secondary)) {
        (Some(p), Some(s), Some(pid), Some(sid)) => Some(RunePageView {
            name: p + " & "@ + s,
            perk_ids: perks,
            primary_style_id: pid,
            sub_style_id: sid,
        }),
        _ => None,
    }
}

/// The type of a slot, such as `kKeyStone`.
pub open spec fn slot_kind(slot: Json) -> Option<Seq<char>> {
    match slot.member("type"@) {
        Some(t) => t.text(),
        None => None,
    }
}

/// The builder that starts from the styles that the client served, with
/// `r` drawing the primary style.
pub open spec fn rune_start(styles: Json, r: usize) -> Option<RuneBuilderView> {
    match styles.items() {
        Some(items) => if items.len() > 0 {
            Some(RuneBuilderView {
                styles: items,
                primary: (r % (items.len() as usize)) as usize,
                phase: RunePhase::Primary { slot: 0 },
                perks: Seq::empty(),
            })
        } else {
            None
        },
        None => None,
    }
}

/// One step of building, with the random number `r`.
pub open spec fn rune_step(b: RuneBuilderView, r: usize) -> RuneStepView {
    match b.phase {
        RunePhase::Primary { slot } => match style_at(b.styles, b.primary as int) {
            Some(primary) => match slots_of(primary) {
                Some(slots) => if slots.len() < 3 {
                    RuneStepView::Failed
                } else if slot < slots.len() - 3 {
                    match perk_of(slots[slot as int], r) {
                        Some(perk) => RuneStepView::Building(RuneBuilderView {
                            phase: RunePhase::Primary { slot: (slot + 1) as usize },
                            perks: b.perks.push(perk),
                            ..b
                        }),
                        None => RuneStepView::Failed,
                    }
                } else {
                    match secondary_of(b.styles, primary, r) {
                        Some(s) => RuneStepView::Building(RuneBuilderView {
                            phase: RunePhase::Ignore { secondary: s as usize },
                            ..b
                        }),
                        None => RuneStepView::Failed,
                    }
                },
                None => RuneStepView::Failed,
            },
            None => RuneStepView::Failed,
        },
        RunePhase::Ignore { secondary } => RuneStepView::Building(RuneBuilderView {
            phase: RunePhase::Secondary {
                secondary,
                ignore: (r % 3 + 1) as usize,
                slot: 0,
                seen: 0,
            },
            ..b
        }),
        RunePhase::Secondary { secondary, ignore, slot, seen } => match style_at(b.styles, secondary as int) {
            Some(style) => match slots_of(style) {
                Some(slots) => if slot < slots.len() {
                    let next = RunePhase::Secondary { secondary, ignore, slot: (slot + 1) as usize, seen };
                    match slot_kind(slots[slot as int]) {
                        Some(kind) => if kind == "kKeyStone"@ {
                            RuneStepView::Building(RuneBuilderView { phase: next, ..b })
                        } else {
                            let counted = if kind == "kMixedRegularSplashable"@ { seen + 1 } else { seen as int };
                            let phase = RunePhase::Secondary {
                                secondary,
                                ignore,
                                slot: (slot + 1) as usize,
                                seen: counted as usize,
                            };
                            if kind == "kMixedRegularSplashable"@ && counted == ignore {
                                RuneStepView::Building(RuneBuilderView { phase, ..b })
                            } else {
                                match perk_of(slots[slot as int], r) {
                                    Some(perk) => RuneStepView::Building(RuneBuilderView {
                                        phase,
                                        perks: b.perks.push(perk),
                                        ..b
                                    }),
                                    None => RuneStepView::Failed,
                                }
                            }
                        },
                        None => RuneStepView::Failed,
                    }
                } else {
                    match (style_at(b.styles, b.primary as int)) {
                        Some(primary) => match finished_page(primary, style, b.perks) {
                            Some(p) => RuneStepView::Done(p),
                            None => RuneStepView::Failed,
                        },
                        None => RuneStepView::Failed,
                    }
                },
                None => RuneStepView::Failed,
            },
            None => RuneStepView::Failed,
        },
    }
}

/// Whether the next step draws a random number.
pub open spec fn rune_needs_draw(b: RuneBuilderView) -> bool {
    match b.phase {
        RunePhase::Primary { .. } => true,
        RunePhase::Ignore { .. } => true,
        RunePhase::Secondary { secondary, ignore, slot, seen } => match style_at(b.styles, secondary as int) {
            Some(style) => match slots_of(style) {
                Some(slots) => slot < slots.len() && match slot_kind(slots[slot as int]) {
                    Some(kind) => kind != "kKeyStone"@ && !(kind == "kMixedRegularSplashable"@ && seen + 1 == ignore),
                    None => false,
                },
                None => false,
            },
            None => false,
        },
    }
}

/// Whether `perk` is the perk drawn with `r` from slot `j` of style `i`.
pub open spec fn drawn_from(styles: Seq<Json>, i: int, j: int, r: usize, perk: i64) -> bool {
    &&& 0 <= i < styles.len()
    &&& slots_of(styles[i]) matches Some(slots)
    &&& 0 <= j < slots.len()
    &&& perk_of(slots[j], r) == Some(perk)
}

/// Law: a step keeps the styles and the primary style, adds at most one
/// perk, drawn with its random number from a slot of one of the styles,
/// leaves out one of the first three splashable slots, and finishes a page
/// with exactly the perks gathered, named after its two styles.
pub proof fn law_rune_step(b: RuneBuilderView, r: usize)
    ensures
        rune_step(b, r) matches RuneStepView::Building(next) ==> {
            &&& next.styles == b.styles
            &&& next.primary == b.primary
            &&& (next.perks == b.perks || exists|i: int, j: int, perk: i64|
                drawn_from(b.styles, i, j, r, perk) && next.perks == b.perks.push(perk))
            &&& (next.phase matches RunePhase::Secondary { ignore, .. } ==> 1 <= ignore <= 3)
                || !(b.phase is Ignore)
        },
        rune_step(b, r) matches RuneStepView::Done(page) ==> {
            &&& page.perk_ids == b.perks
            &&& exists|s: int| 0 <= s < b.styles.len() && finished_page(b.styles[b.primary as int], b.styles[s], b.perks) == Some(page)
        },
{
    match b.phase {
        RunePhase::Primary { slot } => {
            if let RuneStepView::Building(next) = rune_step(b, r) {
                if next.perks != b.perks {
                    let slots = slots_of(b.styles[b.primary as int]).unwrap();
                    let perk = perk_of(slots[slot as int], r).unwrap();
                    assert(drawn_from(b.styles, b.primary as int, slot as int, r, perk));
                }
            }
        },
        RunePhase::Ignore { secondary } => {},
        RunePhase::Secondary { secondary, ignore, slot, seen } => {
            if let RuneStepView::Building(next) = rune_step(b, r) {
                if next.perks != b.perks {
                    let slots = slots_of(b.styles[secondary as int]).unwrap();
                    let perk = perk_of(slots[slot as int], r).unwrap();
                    assert(drawn_from(b.styles, secondary as int, slot as int, r, perk));
                }
            }
            if let RuneStepView::Done(page) = rune_step(b, r) {
                assert(finished_page(b.styles[b.primary as int], b.styles[secondary as int], b.perks) == Some(page));
            }
        },
    }
}

/// A step that draws nothing does not depend on the random number.
pub proof fn law_rune_step_without_draw(b: RuneBuilderView, r1: usize, r2: usize)
    requires
        !rune_needs_draw(b),
    ensures
        rune_step(b, r1) == rune_step(b, r2),
{
}

/// The style that the search by id finds has that id, and where every style
/// has an integer id and one of them is the integer `id`, the search finds one.
proof fn lemma_style_with_id(styles: Seq<Json>, id: Json)
    ensures
        style_with_id(styles, id) matches Some(k) ==> {
            &&& 0 <= k < styles.len()
            &&& id.i64_value() is Some
            &&& style_id(styles[k]) == id.i64_value()
        },
        (forall|i: int| 0 <= i < styles.len() ==> (#[trigger] style_id(styles[i])) is Some)
            && id.i64_value() is Some
            && (exists|i: int| 0 <= i < styles.len() && #[trigger] style_id(styles[i]) == id.i64_value())
            ==> style_with_id(styles, id) is Some,
    decreases styles.len(),
{
    if styles.len() > 0 {
        let rest = styles.drop_first();
        lemma_style_with_id(rest, id);
        assert forall|i: int| 0 <= i < rest.len() implies rest[i] == styles[i + 1] by {}
        if (forall|i: int| 0 <= i < styles.len() ==> (#[trigger] style_id(styles[i])) is Some)
            && id.i64_value() is Some
            && (exists|i: int| 0 <= i < styles.len() && #[trigger] style_id(styles[i]) == id.i64_value())
            && style_id(styles[0]) != id.i64_value()
        {
            let w = choose|i: int| 0 <= i < styles.len() && #[trigger] style_id(styles[i]) == id.i64_value();
            assert(style_id(rest[w - 1]) == id.i64_value());
            assert forall|i: int| 0 <= i < rest.len() implies (#[trigger] style_id(rest[i])) is Some by {
                assert(style_id(styles[i + 1]) is Some);
            }
        }
    }
}

/// Law: once every primary slot but the last three has its perk, the step
/// with the random number `r` makes the secondary style the style whose id
/// is item `r` mod `n` of the primary style's `n` allowed sub-styles; so the
/// number `k` below `n` makes it the style of the `k`-th allowed sub-style,
/// and every allowed sub-style can be drawn.
pub proof fn law_secondary_style_drawn(
    b: RuneBuilderView,
    slot: usize,
    slots: Seq<Json>,
    allowed: Seq<Json>,
    r: usize,
    k: usize,
)
    requires
        0 <= b.primary < b.styles.len() <= usize::MAX,
        b.phase == (RunePhase::Primary { slot }),
        slots_of(b.styles[b.primary as int]) == Some(slots),
        3 <= slots.len() <= slot + 3,
        b.styles[b.primary as int].member("allowedSubStyles"@) matches Some(a) && a.items() == Some(allowed),
        allowed.len() > 0,
        forall|i: int| 0 <= i < b.styles.len() ==> (#[trigger] style_id(b.styles[i])) is Some,
        forall|m: int| 0 <= m < allowed.len() ==> (#[trigger] allowed[m].i64_value()) is Some,
        forall|m: int| 0 <= m < allowed.len() ==> exists|i: int|
            0 <= i < b.styles.len() && #[trigger] style_id(b.styles[i]) == (#[trigger] allowed[m].i64_value()),
    ensures
        rune_step(b, r) matches RuneStepView::Building(next)
            && next.phase matches RunePhase::Ignore { secondary }
            && secondary < b.styles.len()
            && style_id(b.styles[secondary as int]) == allowed[(r as int) % (allowed.len() as int)].i64_value()
            && next == (RuneBuilderView { phase: RunePhase::Ignore { secondary }, ..b }),
        k < allowed.len() ==> (rune_step(b, k) matches RuneStepView::Building(next)
            && next.phase matches RunePhase::Ignore { secondary }
            && secondary < b.styles.len()
            && style_id(b.styles[secondary as int]) == allowed[k as int].i64_value()),
{
    let m = (r as int) % (allowed.len() as int);
    assert(allowed[m].i64_value() is Some);
    lemma_style_with_id(b.styles, allowed[m]);
    if k < allowed.len() {
        vstd::arithmetic::div_mod::lemma_small_mod(k as nat, allowed.len());
        assert(allowed[k as int].i64_value() is Some);
        lemma_style_with_id(b.styles, allowed[k as int]);
    }
}

/// The slots of a style.
fn style_slots(style: &Json) -> (r: Option<&Vec<Json>>)
    ensures
        r is Some <==> slots_of(*style) is Some,
        r matches Some(s) ==> Some(s@) == slots_of(*style),
{
    match style.get("slots") {
        Some(s) => s.as_array(),
        None => None,
    }
}

/// The perk drawn with `r` out of a slot.
fn slot_perk(slot: &Json, r: usize) -> (p: Option<i64>)
    ensures
        p == perk_of(*slot, r),
{
    match slot.get("perks") {
        Some(p) => match p.as_array() {
            Some(perks) => if perks.len() > 0 {
                perks[r % perks.len()].as_i64()
            } else {
                None
            },
            None => None,
        },
        None => None,
    }
}

/// The first style with the id `id`.
fn find_style(styles: &Vec<Json>, id: &Json) -> (r: Option<usize>)
    ensures
        r is Some <==> style_with_id(styles@, *id) is Some,
        r matches Some(i) ==> style_with_id(styles@, *id) == Some(i as int),
{
    let mut i: usize = 0;
    assert(styles@.skip(0) =~= styles@);
    while i < styles.len()
        invariant
            i <= styles@.len(),
            style_with_id(styles@, *id) == match style_with_id(styles@.skip(i as int), *id) {
                Some(k) => Some(k + i),
                None => None,
            },
        decreases styles.len() - i,
    {
        let ghost rest = styles@.skip(i as int);
        assert(rest[0] == styles@[i as int]);
        assert(rest.drop_first() =~= styles@.skip(i + 1));
        let a = match styles[i].get("id") {
            Some(j) => match j.as_i64() {
                Some(v) => v,
                None => return None,
            },
            None => return None,
        };
        let b = match id.as_i64() {
            Some(v) => v,
            None => return None,
        };
        if a == b {
            return Some(i);
        }
        i = i + 1;
    }
    None
}

/// The text of a style's name.
fn name_of(style: &Json) -> (r: Option<&String>)
    ensures
        r is Some <==> style_name(*style) is Some,
        r matches Some(s) ==> Some(s@) == style_name(*style),
{
    match style.get("name") {
        Some(n) => n.as_str(),
        None => None,
    }
}

/// The id of a style.
fn id_of(style: &Json) -> (r: Option<i64>)
    ensures
        r == style_id(*style),
{
    match style.get("id") {
        Some(n) => n.as_i64(),
        None => None,
    }
}

/// The JSON value of an integer.
fn i64_json(x: i64) -> (j: Json)
    ensures
        j == int_json(x),
{
    if x >= 0 {
        Json::Number(JsonNumber::PosInt(x as u64))
    } else {
        Json::Number(JsonNumber::NegInt(x))
    }
}

impl RunePage {
    /// The document that the call creating this page carries.
    pub fn document(&self) -> (doc: Json)
        ensures
            is_page_document(self@, doc),
    {
        let mut ids: Vec<Json> = Vec::new();
        let mut i: usize = 0;
        while i < self.perk_ids.len()
            invariant
                i <= self.perk_ids@.len(),
                ids@ == self.perk_ids@.take(i as int).map_values(|x: i64| int_json(x)),
            decreases self.perk_ids.len() - i,
        {
            ids.push(i64_json(self.perk_ids[i]));
            assert(self.perk_ids@.take(i + 1).map_values(|x: i64| int_json(x))
                =~= self.perk_ids@.take(i as int).map_values(|x: i64| int_json(x)).push(int_json(self.perk_ids@[i as int])));
            i = i + 1;
        }
        assert(self.perk_ids@.take(i as int) =~= self.perk_ids@);
        let mut members: Vec<(String, Json)> = Vec::new();
        members.push((String::from_str("name"), Json::Str(self.name.clone())));
        members.push((String::from_str("selectedPerkIds"), Json::Array(ids)));
        members.push((String::from_str("current"), Json::Bool(true)));
        members.push((String::from_str("primaryStyleId"), i64_json(self.primary_style_id)));
        members.push((String::from_str("subStyleId"), i64_json(self.sub_style_id)));
        Json::Object(members)
    }
}

impl RuneBuilder {
    #[verifier::type_invariant]
    spec fn counters_in_range(self) -> bool {
        counters_ok(self.phase)
    }

    /// Starts a page from the styles that the client served: `r` draws the
    /// primary style. `None` where the styles are no array or an empty one.
    pub fn start(styles: Json, r: usize) -> (b: Option<RuneBuilder>)
        ensures
            b is Some <==> rune_start(styles, r) is Some,
            b matches Some(b) ==> Some(b@) == rune_start(styles, r),
    {
        match styles {
            Json::Array(items) => {
                if items.len() == 0 {
                    None
                } else {
                    let primary = r % items.len();
                    Some(RuneBuilder {
                        styles: items,
                        primary,
                        phase: RunePhase::Primary { slot: 0 },
                        perks: Vec::new(),
                    })
                }
            },
            _ => None,
        }
    }

    /// Whether the next step draws a random number.
    pub fn needs_draw(&self) -> (d: bool)
        ensures
            d == rune_needs_draw(self@),
    {
        match self.phase {
            RunePhase::Primary { .. } => true,
            RunePhase::Ignore { .. } => true,
            RunePhase::Secondary { secondary, ignore, slot, seen } => {
                proof { use_type_invariant(self); }
                if secondary >= self.styles.len() {
                    return false;
                }
                let slots = match style_slots(&self.styles[secondary]) {
                    Some(s) => s,
                    None => return false,
                };
                if slot >= slots.len() {
                    return false;
                }
                match slots[slot].get("type") {
                    Some(t) => match t.as_str() {
                        Some(kind) => !text_is(kind, "kKeyStone") && !(text_is(kind, "kMixedRegularSplashable")
                            && seen + 1 == ignore),
                        None => false,
                    },
                    None => false,
                }
            },
        }
    }

    /// One step of building, with the random number `r`.
    pub fn step(self, r: usize) -> (out: RuneStep)
        ensures
            out@ == rune_step(self@, r),
    {
        proof { use_type_invariant(&self); }
        let RuneBuilder { styles, primary, phase, mut perks } = self;
        match phase {
            RunePhase::Primary { slot } => {
                if primary >= styles.len() {
                    return RuneStep::Failed;
                }
                let slots = match style_slots(&styles[primary]) {
                    Some(s) => s,
                    None => return RuneStep::Failed,
                };
                if slots.len() < 3 {
                    return RuneStep::Failed;
                }
                if slot < slots.len() - 3 {
                    match slot_perk(&slots[slot], r) {
                        Some(perk) => {
                            perks.push(perk);
                            RuneStep::Building(RuneBuilder {
                                styles,
                                primary,
                                phase: RunePhase::Primary { slot: slot + 1 },
                                perks,
                            })
                        },
                        None => RuneStep::Failed,
                    }
                } else {
                    let allowed = match styles[primary].get("allowedSubStyles") {
                        Some(a) => match a.as_array() {
                            Some(allowed) => allowed,
                            None => return RuneStep::Failed,
                        },
                        None => return RuneStep::Failed,
                    };
                    if allowed.len() == 0 {
                        return RuneStep::Failed;
                    }
                    match find_style(&styles, &allowed[r % allowed.len()]) {
                        Some(s) => RuneStep::Building(RuneBuilder {
                            styles,
                            primary,
                            phase: RunePhase::Ignore { secondary: s },
                            perks,
                        }),
                        None => RuneStep::Failed,
                    }
                }
            },
            RunePhase::Ignore { secondary } => RuneStep::Building(RuneBuilder {
                styles,
                primary,
                phase: RunePhase::Secondary { secondary, ignore: r % 3 + 1, slot: 0, seen: 0 },
                perks,
            }),
            RunePhase::Secondary { secondary, ignore, slot, seen } => {
                if secondary >= styles.len() {
                    return RuneStep::Failed;
                }
                let slots = match style_slots(&styles[secondary]) {
                    Some(s) => s,
                    None => return RuneStep::Failed,
                };
                if slot < slots.len() {
                    let kind = match slots[slot].get("type") {
                        Some(t) => match t.as_str() {
                            Some(k) => k,
                            None => return RuneStep::Failed,
                        },
                        None => return RuneStep::Failed,
                    };
                    if text_is(kind, "kKeyStone") {
                        return RuneStep::Building(RuneBuilder {
                            styles,
                            primary,
                            phase: RunePhase::Secondary { secondary, ignore, slot: slot + 1, seen },
                            perks,
                        });
                    }
                    let splashable = text_is(kind, "kMixedRegularSplashable");
                    let counted = if splashable { seen + 1 } else { seen };
                    if splashable && counted == ignore {
                        return RuneStep::Building(RuneBuilder {
                            styles,
                            primary,
                            phase: RunePhase::Secondary { secondary, ignore, slot: slot + 1, seen: counted },
                            perks,
                        });
                    }
                    match slot_perk(&slots[slot], r) {
                        Some(perk) => {
                            perks.push(perk);
                            RuneStep::Building(RuneBuilder {
                                styles,
                                primary,
                                phase: RunePhase::Secondary { secondary, ignore, slot: slot + 1, seen: counted },
                                perks,
                            })
                        },
                        None => RuneStep::Failed,
                    }
                } else {
                    if primary >= styles.len() {
                        return RuneStep::Failed;
                    }
                    let p = &styles[primary];
                    let s = &styles[secondary];
                    match (name_of(p), name_of(s), id_of(p), id_of(s)) {
                        (Some(pn), Some(sn), Some(pid), Some(sid)) => {
                            let mut name = pn.clone();
                            name.append(" & ");
                            name.append(sn.as_str());
                            RuneStep::Done(RunePage {
                                name,
                                perk_ids: perks,
                                primary_style_id: pid,
                                sub_style_id: sid,
                            })
                        },
                        _ => RuneStep::Failed,
                    }
                }
            },
        }
    }
}

} // verus!
