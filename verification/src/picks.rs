//! Reading the client's replies and events, and the random choices of
//! champion select: which action is the user's, which champion, which
//! summoner spells.

use vstd::prelude::*;
use crate::json::{Json, deref_opt, text_is};

verus! {

/// Item `i` of a frame, as indexing the parsed `Vec` finds it (`None` past
/// the end, where indexing panics).
pub open spec fn frame_item(frame: Seq<Json>, i: int) -> Option<Json> {
    if 0 <= i < frame.len() {
        Some(frame[i])
    } else {
        None
    }
}

/// The message type of a frame: its first item as an unsigned integer.
pub open spec fn frame_code(frame: Seq<Json>) -> Option<u64> {
    match frame_item(frame, 0) {
        Some(j) => j.u64_value(),
        None => None,
    }
}

/// Whether a frame answers one of this library's calls: its second item is
/// the text `bundolrequest`. `None` where it has no second text item.
pub open spec fn frame_is_reply(frame: Seq<Json>) -> Option<bool> {
    match frame_item(frame, 1) {
        Some(j) => match j.text() {
            Some(t) => Some(t == "bundolrequest"@),
            None => None,
        },
        None => None,
    }
}

/// Whether an event frame reports that champion select was just created:
/// its payload's `uri` is the champion select session and its `eventType`
/// is `Create` (the event type is read only when the uri matches).
pub open spec fn is_champ_select_start(frame: Seq<Json>) -> Option<bool> {
    match frame_item(frame, 2) {
        Some(payload) => match payload.member("uri"@) {
            Some(u) => match u.text() {
                Some(uri) => if uri == "/lol-champ-select/v1/session"@ {
                    match payload.member("eventType"@) {
                        Some(e) => match e.text() {
                            Some(kind) => Some(kind == "Create"@),
                            None => None,
                        },
                        None => None,
                    }
                } else {
                    Some(false)
                },
                None => None,
            },
            None => None,
        },
        None => None,
    }
}

/// The first action whose `actorCellId` is `cell`; `None` where an action
/// before it has no unsigned `actorCellId`, or where none matches.
pub open spec fn first_action_of(actions: Seq<Json>, cell: u64) -> Option<Json>
    decreases actions.len(),
{
    if actions.len() == 0 {
        None
    } else {
        match actions[0].member("actorCellId"@) {
            Some(c) => match c.u64_value() {
                Some(v) => if v == cell {
                    Some(actions[0])
                } else {
                    first_action_of(actions.drop_first(), cell)
                },
                None => None,
            },
            None => None,
        }
    }
}

/// The actions of the first turn of a champion select session: the items of
/// the first item of its `actions`.
pub open spec fn first_turn(session: Json) -> Option<Seq<Json>> {
    match session.member("actions"@) {
        Some(Json::Array(turns)) => if turns.len() > 0 {
            turns@[0].items()
        } else {
            None
        },
        _ => None,
    }
}

/// The id of the user's action in a champion select session: the first
/// action of the first turn whose actor is the user's cell.
pub open spec fn action_id_of(session: Json) -> Option<u64> {
    match session.member("localPlayerCellId"@) {
        Some(c) => match c.u64_value() {
            Some(cell) => match first_turn(session) {
                Some(actions) => match first_action_of(actions, cell) {
                    Some(a) => match a.member("id"@) {
                        Some(id) => id.u64_value(),
                        None => None,
                    },
                    None => None,
                },
                None => None,
            },
            None => None,
        },
        None => None,
    }
}

/// The champion drawn by the random number `r` out of the pickable ones.
pub open spec fn champion_pick(pickable: Seq<Json>, r: usize) -> Option<u64> {
    if pickable.len() == 0 {
        None
    } else {
        pickable[(r as int) % (pickable.len() as int)].u64_value()
    }
}

/// The items of `s` that occur in `allowed`, in their order.
pub open spec fn keep_listed(s: Seq<i64>, allowed: Seq<i64>) -> Seq<i64>
    decreases s.len(),
{
    if s.len() == 0 {
        s
    } else if allowed.contains(s.last()) {
        keep_listed(s.drop_last(), allowed).push(s.last())
    } else {
        keep_listed(s.drop_last(), allowed)
    }
}

/// Whether every item is a signed 64-bit integer.
pub open spec fn all_i64(items: Seq<Json>) -> bool {
    forall|i: int| 0 <= i < items.len() ==> (#[trigger] items[i]).i64_value() is Some
}

/// The integers of items that all are integers.
pub open spec fn i64_items(items: Seq<Json>) -> Seq<i64> {
    items.map_values(|j: Json| j.i64_value().unwrap())
}

/// The spells of `spell_ids` that the summoner owns, in the order of
/// `spell_ids`; `None` where an owned spell is not an integer.
pub open spec fn spells_available(spell_ids: Seq<i64>, owned: Seq<Json>) -> Option<Seq<i64>> {
    if all_i64(owned) {
        Some(keep_listed(spell_ids, i64_items(owned)))
    } else {
        None
    }
}

/// The chosen spells after one draw with the random number `r`: the drawn
/// spell is added unless it was chosen already.
pub open spec fn spells_after_draw(chosen: Seq<i64>, available: Seq<i64>, r: usize) -> Seq<i64> {
    let spell = available[(r as int) % (available.len() as int)];
    if chosen.contains(spell) {
        chosen
    } else {
        chosen.push(spell)
    }
}

/// Whether the game modes of a spell list `CLASSIC`.
pub open spec fn lists_classic(modes: Seq<Json>) -> bool {
    exists|i: int| 0 <= i < modes.len() && (#[trigger] modes[i]).text() == Some("CLASSIC"@)
}

/// The ids of the spells of the classic game mode, in order; `None` where
/// a spell has no list of game modes, or a classic one has no integer id.
pub open spec fn classic_ids(spells: Seq<Json>) -> Option<Seq<i64>>
    decreases spells.len(),
{
    if spells.len() == 0 {
        Some(Seq::empty())
    } else {
        match classic_ids(spells.drop_last()) {
            Some(ids) => {
                let s = spells.last();
                match s.member("gameModes"@) {
                    Some(m) => match m.items() {
                        Some(modes) => if lists_classic(modes) {
                            match s.member("id"@) {
                                Some(id) => match id.i64_value() {
                                    Some(v) => Some(ids.push(v)),
                                    None => None,
                                },
                                None => None,
                            }
                        } else {
                            Some(ids)
                        },
                        None => None,
                    },
                    None => None,
                }
            },
            None => None,
        }
    }
}

/// Whether `x` is the id of an entry of `spells` whose game modes list `CLASSIC`.
pub open spec fn is_classic_spell(spells: Seq<Json>, x: i64) -> bool {
    exists|i: int| 0 <= i < spells.len() && {
        &&& (#[trigger] spells[i]).member("gameModes"@) matches Some(m)
        &&& m.items() matches Some(modes)
        &&& lists_classic(modes)
        &&& spells[i].member("id"@) matches Some(id)
        &&& id.i64_value() == Some(x)
    }
}

/// Every id that `classic_ids` gives is the id of a classic entry.
pub proof fn lemma_classic_ids_are_classic(spells: Seq<Json>)
    ensures
        classic_ids(spells) matches Some(ids) ==> forall|x: i64| ids.contains(x) ==> is_classic_spell(spells, x),
    decreases spells.len(),
{
    if spells.len() > 0 {
        let p = spells.drop_last();
        lemma_classic_ids_are_classic(p);
        if let Some(ids) = classic_ids(spells) {
            let prev = classic_ids(p).unwrap();
            assert forall|x: i64| ids.contains(x) implies is_classic_spell(spells, x) by {
                let k = choose|k: int| 0 <= k < ids.len() && ids[k] == x;
                if k < prev.len() {
                    assert(prev[k] == x);
                    assert(prev.contains(x));
                    let i = choose|i: int| 0 <= i < p.len() && {
                        &&& (#[trigger] p[i]).member("gameModes"@) matches Some(m)
                        &&& m.items() matches Some(modes)
                        &&& lists_classic(modes)
                        &&& p[i].member("id"@) matches Some(id)
                        &&& id.i64_value() == Some(x)
                    };
                    assert(spells[i] == p[i]);
                } else {
                    let last = spells.len() - 1;
                    assert(spells[last] == spells.last());
                }
            }
        }
    }
}

/// The classic spell ids of the spell list `spells`, which must be an array.
pub open spec fn classic_spell_ids(spells: Json) -> Option<Seq<i64>> {
    match spells.items() {
        Some(items) => classic_ids(items),
        None => None,
    }
}

/// Whether no value occurs twice.
pub open spec fn distinct(s: Seq<i64>) -> bool {
    forall|i: int, j: int| 0 <= i < j < s.len() ==> s[i] != s[j]
}

/// Law: a drawn champion is one of the pickable champions.
pub proof fn law_champion_is_pickable(pickable: Seq<Json>, r: usize)
    ensures
        champion_pick(pickable, r) matches Some(c) ==> exists|i: int|
            0 <= i < pickable.len() && (#[trigger] pickable[i]).u64_value() == Some(c),
{
    if champion_pick(pickable, r) is Some {
        let i = (r as int) % (pickable.len() as int);
        assert(pickable[i].u64_value() == champion_pick(pickable, r));
    }
}

/// Law: two random numbers with the same remainder by the number of
/// pickable champions draw the same champion, and the number `k` below that
/// count draws the `k`-th champion; so every pickable champion is drawn by
/// some number.
pub proof fn law_every_champion_can_be_drawn(pickable: Seq<Json>, r1: usize, r2: usize, k: usize)
    requires
        pickable.len() > 0,
    ensures
        (r1 as int) % (pickable.len() as int) == (r2 as int) % (pickable.len() as int)
            ==> champion_pick(pickable, r1) == champion_pick(pickable, r2),
        k < pickable.len() ==> champion_pick(pickable, k) == pickable[k as int].u64_value(),
{
    if k < pickable.len() {
        vstd::arithmetic::div_mod::lemma_small_mod(k as nat, pickable.len());
    }
}

/// Law: two random numbers with the same remainder by the number of
/// available spells make the same draw, and the number `k` below that count
/// adds the `k`-th available spell unless it is chosen already; so every
/// available spell can be added.
pub proof fn law_every_spell_can_be_drawn(chosen: Seq<i64>, available: Seq<i64>, r1: usize, r2: usize, k: usize)
    requires
        available.len() > 0,
    ensures
        (r1 as int) % (available.len() as int) == (r2 as int) % (available.len() as int)
            ==> spells_after_draw(chosen, available, r1) == spells_after_draw(chosen, available, r2),
        k < available.len() ==> spells_after_draw(chosen, available, k) == (if chosen.contains(available[k as int]) {
            chosen
        } else {
            chosen.push(available[k as int])
        }),
{
    if k < available.len() {
        vstd::arithmetic::div_mod::lemma_small_mod(k as nat, available.len());
    }
}

/// Law: an entry of the game data whose game modes hold the text `CLASSIC`
/// at any position, and whose id is an integer, has its id among the
/// classic ids.
pub proof fn law_classic_entry_is_kept(spells: Seq<Json>, i: int, k: int)
    requires
        classic_ids(spells) is Some,
        0 <= i < spells.len(),
        spells[i].member("gameModes"@) matches Some(m) && (m.items() matches Some(modes)
            && 0 <= k < modes.len() && modes[k].text() == Some("CLASSIC"@)),
        spells[i].member("id"@) matches Some(id) && id.i64_value() is Some,
    ensures
        classic_ids(spells).unwrap().contains(spells[i].member("id"@).unwrap().i64_value().unwrap()),
    decreases spells.len(),
{
    let p = spells.drop_last();
    let ids = classic_ids(spells).unwrap();
    let v = spells[i].member("id"@).unwrap().i64_value().unwrap();
    let modes = spells[i].member("gameModes"@).unwrap().items().unwrap();
    assert(lists_classic(modes)) by {
        assert(modes[k].text() == Some("CLASSIC"@));
    }
    if i == spells.len() - 1 {
        assert(spells.last() == spells[i]);
        let prev = classic_ids(p).unwrap();
        assert(ids == prev.push(v));
        assert(ids[prev.len() as int] == v);
    } else {
        assert(p[i] == spells[i]);
        law_classic_entry_is_kept(p, i, k);
        let prev = classic_ids(p).unwrap();
        assert(prev.contains(v));
        let j = choose|j: int| 0 <= j < prev.len() && prev[j] == v;
        let s = spells.last();
        if ids == prev {
        } else {
            assert(ids[j] == prev[j]);
        }
        assert(ids[j] == v);
    }
}

/// Law: the available spells are spells of the list that the summoner owns.
pub proof fn law_available_spells_listed(spell_ids: Seq<i64>, owned: Seq<i64>)
    ensures
        forall|x: i64| keep_listed(spell_ids, owned).contains(x) ==> spell_ids.contains(x) && owned.contains(x),
    decreases spell_ids.len(),
{
    if spell_ids.len() > 0 {
        let p = spell_ids.drop_last();
        law_available_spells_listed(p, owned);
        assert forall|x: i64| keep_listed(spell_ids, owned).contains(x) implies spell_ids.contains(x) && owned.contains(x) by {
            let k = keep_listed(p, owned);
            if keep_listed(spell_ids, owned) =~= k {
                let j = choose|j: int| 0 <= j < k.len() && k[j] == x;
                assert(k.contains(x));
                assert(p.contains(x));
                let m = choose|m: int| 0 <= m < p.len() && p[m] == x;
                assert(p[m] == spell_ids[m]);
                assert(spell_ids[m] == x);
            } else {
                assert(keep_listed(spell_ids, owned) == k.push(spell_ids.last()));
                let j = choose|j: int| 0 <= j < k.len() + 1 && k.push(spell_ids.last())[j] == x;
                if j < k.len() {
                    assert(k[j] == x);
                    assert(k.contains(x));
                    assert(p.contains(x));
                    let m = choose|m: int| 0 <= m < p.len() && p[m] == x;
                    assert(p[m] == spell_ids[m]);
                    assert(spell_ids[m] == x);
                } else {
                    assert(spell_ids[spell_ids.len() - 1] == x);
                }
            }
        }
    }
}

/// Law: drawing a spell keeps the chosen spells distinct and available,
/// and adds at most one.
pub proof fn law_drawn_spells_distinct(chosen: Seq<i64>, available: Seq<i64>, r: usize)
    requires
        available.len() > 0,
        distinct(chosen),
        forall|x: i64| chosen.contains(x) ==> available.contains(x),
    ensures
        distinct(spells_after_draw(chosen, available, r)),
        forall|x: i64| spells_after_draw(chosen, available, r).contains(x) ==> available.contains(x),
        spells_after_draw(chosen, available, r).len() <= chosen.len() + 1,
        spells_after_draw(chosen, available, r).len() >= chosen.len(),
{
    let spell = available[(r as int) % (available.len() as int)];
    let now = spells_after_draw(chosen, available, r);
    if !chosen.contains(spell) {
        assert forall|i: int, j: int| 0 <= i < j < now.len() implies now[i] != now[j] by {
            if j == chosen.len() {
                assert(now[i] == chosen[i]);
                assert(chosen.contains(now[i]));
            }
        }
        assert forall|x: i64| now.contains(x) implies available.contains(x) by {
            let j = choose|j: int| 0 <= j < now.len() && now[j] == x;
            if j < chosen.len() {
                assert(chosen[j] == x);
                assert(chosen.contains(x));
            } else {
                assert(available[(r as int) % (available.len() as int)] == x);
            }
        }
    }
}

/// The message type of a frame.
pub fn code_of(frame: &Vec<Json>) -> (r: Option<u64>)
    ensures
        r == frame_code(frame@),
{
    if frame.len() == 0 {
        None
    } else {
        frame[0].as_u64()
    }
}

/// Whether a frame answers one of this library's calls.
pub fn is_reply(frame: &Vec<Json>) -> (r: Option<bool>)
    ensures
        r == frame_is_reply(frame@),
{
    if frame.len() < 2 {
        return None;
    }
    match frame[1].as_str() {
        Some(t) => Some(text_is(t, "bundolrequest")),
        None => None,
    }
}

/// Whether an event frame reports the start of champion select.
pub fn champ_select_started(frame: &Vec<Json>) -> (r: Option<bool>)
    ensures
        r == is_champ_select_start(frame@),
{
    if frame.len() < 3 {
        return None;
    }
    let payload = &frame[2];
    let uri = match payload.get("uri") {
        Some(u) => match u.as_str() {
            Some(t) => t,
            None => return None,
        },
        None => return None,
    };
    if !text_is(uri, "/lol-champ-select/v1/session") {
        return Some(false);
    }
    match payload.get("eventType") {
        Some(e) => match e.as_str() {
            Some(kind) => Some(text_is(kind, "Create")),
            None => None,
        },
        None => None,
    }
}

/// Finds the first action whose actor is `cell`.
pub fn find_action<'a>(actions: &'a Vec<Json>, cell: u64) -> (r: Option<&'a Json>)
    ensures
        deref_opt(r) == first_action_of(actions@, cell),
{
    let mut i: usize = 0;
    assert(actions@.skip(0) =~= actions@);
    while i < actions.len()
        invariant
            i <= actions@.len(),
            first_action_of(actions@, cell) == first_action_of(actions@.skip(i as int), cell),
        decreases actions.len() - i,
    {
        let ghost rest = actions@.skip(i as int);
        assert(rest[0] == actions@[i as int]);
        assert(rest.drop_first() =~= actions@.skip(i + 1));
        let a = &actions[i];
        match a.get("actorCellId") {
            Some(c) => match c.as_u64() {
                Some(v) => {
                    if v == cell {
                        return Some(a);
                    }
                },
                None => return None,
            },
            None => return None,
        }
        i = i + 1;
    }
    None
}

/// The id of the user's action in a champion select session.
pub fn action_id(session: &Json) -> (r: Option<u64>)
    ensures
        r == action_id_of(*session),
{
    let cell = match session.get("localPlayerCellId") {
        Some(c) => match c.as_u64() {
            Some(v) => v,
            None => return None,
        },
        None => return None,
    };
    let turns = match session.get("actions") {
        Some(Json::Array(turns)) => turns,
        _ => return None,
    };
    if turns.len() == 0 {
        return None;
    }
    let actions = match turns[0].as_array() {
        Some(a) => a,
        None => return None,
    };
    match find_action(actions, cell) {
        Some(a) => match a.get("id") {
            Some(id) => id.as_u64(),
            None => None,
        },
        None => None,
    }
}

/// Draws a champion out of the pickable ones with the random number `r`.
pub fn pick_champion(pickable: &Vec<Json>, r: usize) -> (c: Option<u64>)
    ensures
        c == champion_pick(pickable@, r),
{
    if pickable.len() == 0 {
        None
    } else {
        pickable[r % pickable.len()].as_u64()
    }
}

/// Whether `x` occurs in `s`.
pub fn contains_i64(s: &Vec<i64>, x: i64) -> (r: bool)
    ensures
        r == s@.contains(x),
{
    let mut i: usize = 0;
    while i < s.len()
        invariant
            i <= s@.len(),
            forall|j: int| 0 <= j < i ==> s@[j] != x,
        decreases s.len() - i,
    {
        if s[i] == x {
            assert(s@[i as int] == x);
            return true;
        }
        i = i + 1;
    }
    false
}

/// The spells of `spell_ids` that the summoner owns.
pub fn available_spells(spell_ids: &Vec<i64>, owned: &Vec<Json>) -> (r: Option<Vec<i64>>)
    ensures
        r is Some <==> spells_available(spell_ids@, owned@) is Some,
        r matches Some(v) ==> Some(v@) == spells_available(spell_ids@, owned@),
{
    let mut ids: Vec<i64> = Vec::new();
    let mut i: usize = 0;
    while i < owned.len()
        invariant
            i <= owned@.len(),
            ids@.len() == i,
            forall|j: int| 0 <= j < i ==> (#[trigger] owned@[j]).i64_value() == Some(ids@[j]),
        decreases owned.len() - i,
    {
        match owned[i].as_i64() {
            Some(v) => ids.push(v),
            None => {
                assert(!all_i64(owned@)) by {
                    assert(owned@[i as int].i64_value() is None);
                }
                return None;
            },
        }
        i = i + 1;
    }
    assert(all_i64(owned@)) by {
        assert forall|j: int| 0 <= j < owned@.len() implies (#[trigger] owned@[j]).i64_value() is Some by {
            assert(owned@[j].i64_value() == Some(ids@[j]));
        }
    }
    assert(ids@ =~= i64_items(owned@));
    let mut kept: Vec<i64> = Vec::new();
    let mut k: usize = 0;
    assert(spell_ids@.take(0) =~= Seq::<i64>::empty());
    while k < spell_ids.len()
        invariant
            k <= spell_ids@.len(),
            ids@ == i64_items(owned@),
            kept@ == keep_listed(spell_ids@.take(k as int), ids@),
        decreases spell_ids.len() - k,
    {
        let s = spell_ids[k];
        let ghost t = spell_ids@.take(k + 1);
        assert(t.drop_last() =~= spell_ids@.take(k as int));
        assert(t.last() == s);
        if contains_i64(&ids, s) {
            kept.push(s);
        }
        k = k + 1;
    }
    assert(spell_ids@.take(k as int) =~= spell_ids@);
    Some(kept)
}

/// Draws one spell with the random number `r` and adds it unless it was chosen already.
pub fn draw_spell(chosen: &mut Vec<i64>, available: &Vec<i64>, r: usize)
    requires
        available@.len() > 0,
    ensures
        final(chosen)@ == spells_after_draw(old(chosen)@, available@, r),
{
    let spell = available[r % available.len()];
    if !contains_i64(chosen, spell) {
        chosen.push(spell);
    }
}

/// Whether a list of game modes holds the text `CLASSIC`.
fn has_classic(modes: &Vec<Json>) -> (r: bool)
    ensures
        r == lists_classic(modes@),
{
    let mut i: usize = 0;
    while i < modes.len()
        invariant
            i <= modes@.len(),
            forall|j: int| 0 <= j < i ==> (#[trigger] modes@[j]).text() != Some("CLASSIC"@),
        decreases modes.len() - i,
    {
        match modes[i].as_str() {
            Some(t) => {
                if text_is(t, "CLASSIC") {
                    return true;
                }
            },
            None => {},
        }
        i = i + 1;
    }
    false
}

/// The ids of the classic spells in the spell list that the game data serves.
pub fn classic_spells(spells: &Json) -> (r: Option<Vec<i64>>)
    ensures
        r is Some <==> classic_spell_ids(*spells) is Some,
        r matches Some(v) ==> Some(v@) == classic_spell_ids(*spells),
{
    let items = match spells.as_array() {
        Some(a) => a,
        None => return None,
    };
    let mut ids: Vec<i64> = Vec::new();
    let mut i: usize = 0;
    assert(items@.take(0) =~= Seq::<Json>::empty());
    while i < items.len()
        invariant
            i <= items@.len(),
            classic_ids(items@.take(i as int)) == Some(ids@),
            spells.items() == Some(items@),
        decreases items.len() - i,
    {
        let ghost t = items@.take(i + 1);
        assert(t.drop_last() =~= items@.take(i as int));
        assert(t.last() == items@[i as int]);
        let s = &items[i];
        let modes = match s.get("gameModes") {
            Some(m) => match m.as_array() {
                Some(modes) => modes,
                None => {
                    proof { lemma_classic_ids_stuck(items@, i as int); }
                    return None;
                },
            },
            None => {
                proof { lemma_classic_ids_stuck(items@, i as int); }
                return None;
            },
        };
        if has_classic(modes) {
            match s.get("id") {
                Some(id) => match id.as_i64() {
                    Some(v) => ids.push(v),
                    None => {
                        proof { lemma_classic_ids_stuck(items@, i as int); }
                        return None;
                    },
                },
                None => {
                    proof { lemma_classic_ids_stuck(items@, i as int); }
                    return None;
                },
            }
        }
        i = i + 1;
    }
    assert(items@.take(i as int) =~= items@);
    Some(ids)
}

/// Once a prefix of the spell list fails, the whole list fails.
proof fn lemma_classic_ids_stuck(items: Seq<Json>, i: int)
    requires
        0 <= i < items.len(),
        classic_ids(items.take(i + 1)) is None,
    ensures
        classic_ids(items) is None,
    decreases items.len() - i,
{
    if i + 1 < items.len() {
        let t = items.take(i + 2);
        assert(t.drop_last() =~= items.take(i + 1));
        lemma_classic_ids_stuck(items, i + 1);
    } else {
        assert(items.take(i + 1) =~= items);
    }
}

} // verus!
