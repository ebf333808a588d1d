use lcu_autopick::json::{Json, JsonNumber};
use lcu_autopick::picks::{
    action_id, available_spells, champ_select_started, classic_spells, code_of, draw_spell, is_reply,
    pick_champion,
};
use lcu_autopick::runes::{RuneBuilder, RunePage, RuneStep};

fn from_value(v: &serde_json::Value) -> Json {
    match v {
        serde_json::Value::Null => Json::Null,
        serde_json::Value::Bool(b) => Json::Bool(*b),
        serde_json::Value::Number(n) => {
            if let Some(u) = n.as_u64() {
                Json::Number(JsonNumber::PosInt(u))
            } else if let Some(i) = n.as_i64() {
                Json::Number(JsonNumber::NegInt(i))
            } else {
                Json::Number(JsonNumber::Float(n.to_string()))
            }
        }
        serde_json::Value::String(s) => Json::Str(s.clone()),
        serde_json::Value::Array(a) => Json::Array(a.iter().map(from_value).collect()),
        serde_json::Value::Object(m) => {
            Json::Object(m.iter().map(|(k, v)| (k.clone(), from_value(v))).collect())
        }
    }
}

fn parse(text: &str) -> Json {
    from_value(&serde_json::from_str::<serde_json::Value>(text).unwrap())
}

fn items(text: &str) -> Vec<Json> {
    match parse(text) {
        Json::Array(a) => a,
        _ => panic!("not an array"),
    }
}

const STYLES: &str = r#"[
 {"id": 8000, "name": "Precision", "allowedSubStyles": [8100], "slots": [
    {"type": "kKeyStone", "perks": [8005, 8008]},
    {"type": "kMixedRegularSplashable", "perks": [9101, 9111]},
    {"type": "kMixedRegularSplashable", "perks": [9104, 9105]},
    {"type": "kMixedRegularSplashable", "perks": [8014, 8017]},
    {"type": "kStatMod", "perks": [5008]}, {"type": "kStatMod", "perks": [5008]}, {"type": "kStatMod", "perks": [5001]}]},
 {"id": 8100, "name": "Domination", "allowedSubStyles": [8000], "slots": [
    {"type": "kKeyStone", "perks": [8112]},
    {"type": "kMixedRegularSplashable", "perks": [8126, 8139]},
    {"type": "kMixedRegularSplashable", "perks": [8136, 8120]},
    {"type": "kMixedRegularSplashable", "perks": [8135, 8134]},
    {"type": "kStatMod", "perks": [5008]}, {"type": "kStatMod", "perks": [5002]}, {"type": "kStatMod", "perks": [5003]}]}
]"#;

/// The rune selection as written in the client companion, fed with the
/// given random numbers in turn.
fn reference_page(styles: &serde_json::Value, numbers: &mut dyn Iterator<Item = usize>) -> (String, Vec<i64>, i64, i64) {
    let mut selected_perks: Vec<i64> = vec![];
    let random_style_index = numbers.next().unwrap() % styles.as_array().unwrap().len();
    let primary_style = &styles[random_style_index];
    let slots = primary_style.get("slots").unwrap().as_array().unwrap();
    for slot in slots.iter().take(slots.len() - 3) {
        let perks = slot.get("perks").unwrap().as_array().unwrap();
        let random_perk_index = numbers.next().unwrap() % perks.len();
        selected_perks.push(perks[random_perk_index].as_i64().unwrap());
    }
    let allowed = primary_style.get("allowedSubStyles").unwrap().as_array().unwrap();
    let secondary_style_id = &allowed[numbers.next().unwrap() % allowed.len()];
    let secondary_style = styles
        .as_array()
        .unwrap()
        .iter()
        .find(|s| s.get("id").unwrap().as_i64().unwrap() == secondary_style_id.as_i64().unwrap())
        .unwrap();
    let slots = secondary_style.get("slots").unwrap().as_array().unwrap();
    let mut sub_slots_read = 0;
    let random_slot_to_ignore = numbers.next().unwrap() % 3 + 1;
    for slot in slots {
        if slot.get("type").unwrap().as_str().unwrap() == "kKeyStone" {
            continue;
        }
        if slot.get("type").unwrap().as_str().unwrap() == "kMixedRegularSplashable" {
            sub_slots_read += 1;
            if sub_slots_read == random_slot_to_ignore {
                continue;
            }
        }
        let perks = slot.get("perks").unwrap().as_array().unwrap();
        selected_perks.push(perks[numbers.next().unwrap() % perks.len()].as_i64().unwrap());
    }
    (
        format!(
            "{} & {}",
            primary_style.get("name").unwrap().as_str().unwrap(),
            secondary_style.get("name").unwrap().as_str().unwrap()
        ),
        selected_perks,
        primary_style.get("id").unwrap().as_i64().unwrap(),
        secondary_style.get("id").unwrap().as_i64().unwrap(),
    )
}

/// Builds a page, drawing where the builder asks, from the given numbers.
fn build(styles: Json, numbers: &[usize]) -> Option<RunePage> {
    let mut next = 0;
    let mut draw = |needed: bool| {
        if needed {
            next += 1;
            numbers[next - 1]
        } else {
            0
        }
    };
    let mut b = RuneBuilder::start(styles, draw(true))?;
    loop {
        let r = draw(b.needs_draw());
        match b.step(r) {
            RuneStep::Building(n) => b = n,
            RuneStep::Done(p) => return Some(p),
            RuneStep::Failed => return None,
        }
    }
}

#[test]
fn frame_kinds_are_read() {
    let event = items(r#"[8, "OnJsonApiEvent_lol-champ-select_v1_session", {"uri": "/lol-champ-select/v1/session", "eventType": "Create", "data": {}}]"#);
    assert_eq!(code_of(&event), Some(8));
    assert_eq!(is_reply(&event), Some(false));
    assert_eq!(champ_select_started(&event), Some(true));
    let update = items(r#"[8, "x", {"uri": "/lol-champ-select/v1/session", "eventType": "Update"}]"#);
    assert_eq!(champ_select_started(&update), Some(false));
    let other = items(r#"[8, "x", {"uri": "/lol-lobby/v2/lobby"}]"#);
    assert_eq!(champ_select_started(&other), Some(false));
    let reply = items(r#"[3, "bundolrequest", true]"#);
    assert_eq!(is_reply(&reply), Some(true));
    assert_eq!(code_of(&reply), Some(3));
    assert_eq!(is_reply(&items("[3]")), None);
    assert_eq!(code_of(&items("[]")), None);
    assert_eq!(champ_select_started(&items(r#"[8, "x", {"eventType": "Create"}]"#)), None);
}

#[test]
fn finds_the_users_action() {
    let session = parse(r#"{"localPlayerCellId": 3, "actions": [[{"id": 1, "actorCellId": 0}, {"id": 4, "actorCellId": 3}], [{"id": 9, "actorCellId": 3}]]}"#);
    assert_eq!(action_id(&session), Some(4));
    let nobody = parse(r#"{"localPlayerCellId": 5, "actions": [[{"id": 1, "actorCellId": 0}]]}"#);
    assert_eq!(action_id(&nobody), None);
    let broken = parse(r#"{"localPlayerCellId": 3, "actions": [[{"id": 1}, {"id": 4, "actorCellId": 3}]]}"#);
    assert_eq!(action_id(&broken), None);
    let no_turns = parse(r#"{"localPlayerCellId": 3, "actions": []}"#);
    assert_eq!(action_id(&no_turns), None);
}

#[test]
fn champion_is_drawn_by_remainder() {
    let list = items("[1, 2, 3, 4]");
    assert_eq!(pick_champion(&list, 0), Some(1));
    assert_eq!(pick_champion(&list, 6), Some(3));
    assert_eq!(pick_champion(&list, usize::MAX), Some(4));
    assert_eq!(pick_champion(&items("[]"), 3), None);
    assert_eq!(pick_champion(&items(r#"["a"]"#), 3), None);
}

#[test]
fn available_spells_keep_the_list_order() {
    let ids = vec![4, 14, 12, 3, 7];
    assert_eq!(available_spells(&ids, &items("[3, 4, 99, 7]")), Some(vec![4, 3, 7]));
    assert_eq!(available_spells(&ids, &items("[]")), Some(vec![]));
    assert_eq!(available_spells(&ids, &items(r#"[3, "x"]"#)), None);
}

#[test]
fn drawn_spells_stay_distinct() {
    let available = vec![4, 14];
    let mut chosen = vec![];
    draw_spell(&mut chosen, &available, 0);
    assert_eq!(chosen, vec![4]);
    draw_spell(&mut chosen, &available, 2);
    assert_eq!(chosen, vec![4]);
    draw_spell(&mut chosen, &available, 1);
    assert_eq!(chosen, vec![4, 14]);
}

#[test]
fn classic_spells_are_those_of_classic_mode() {
    let spells = parse(r#"[
        {"id": 4, "gameModes": ["CLASSIC", "ARAM"]},
        {"id": 30, "gameModes": ["KINGPORO"]},
        {"id": 14, "gameModes": ["URF", "CLASSIC"]}]"#);
    assert_eq!(classic_spells(&spells), Some(vec![4, 14]));
    assert_eq!(classic_spells(&parse(r#"[{"id": 4}]"#)), None);
    assert_eq!(classic_spells(&parse(r#"[{"gameModes": ["CLASSIC"]}]"#)), None);
    assert_eq!(classic_spells(&parse(r#"[{"gameModes": ["ARAM"]}]"#)), Some(vec![]));
    assert_eq!(classic_spells(&parse("{}")), None);
}

#[test]
fn rune_page_from_known_numbers() {
    let page = build(parse(STYLES), &[0, 1, 0, 1, 0, 0, 1, 1, 0, 0, 0, 0]).unwrap();
    assert_eq!(page.name, "Precision & Domination");
    assert_eq!(page.perk_ids, vec![8008, 9101, 9105, 8014, 8139, 8135, 5008, 5002, 5003]);
    assert_eq!(page.primary_style_id, 8000);
    assert_eq!(page.sub_style_id, 8100);
}

#[test]
fn rune_page_matches_the_reference_selection() {
    let value: serde_json::Value = serde_json::from_str(STYLES).unwrap();
    let sequences: Vec<Vec<usize>> = vec![
        vec![0; 12],
        vec![1; 12],
        vec![1, 2, 3, 4, 5, 6, 7, 8, 9, 10, 11, 12],
        vec![usize::MAX; 12],
        vec![7, 3, 5, 8, 13, 21, 2, 0, 4, 6, 1, 9],
    ];
    for numbers in sequences {
        let ours = build(from_value(&value), &numbers).unwrap();
        let theirs = reference_page(&value, &mut numbers.iter().copied());
        assert_eq!((ours.name, ours.perk_ids, ours.primary_style_id, ours.sub_style_id), theirs);
    }
}

#[test]
fn malformed_styles_fail() {
    assert!(RuneBuilder::start(parse("[]"), 0).is_none());
    assert!(RuneBuilder::start(parse("{}"), 0).is_none());
    assert!(build(parse(r#"[{"id": 1, "name": "a", "slots": [{"perks": [1]}]}]"#), &[0; 12]).is_none());
    assert!(build(parse(r#"[{"id": 1, "name": "a", "allowedSubStyles": [2], "slots": [{"perks": [1]}, {"perks": [1]}, {"perks": [1]}, {"perks": [1]}]}]"#), &[0; 12]).is_none());
}

#[test]
fn page_document_names_the_members_the_client_takes() {
    let page = RunePage {
        name: "Precision & Domination".to_string(),
        perk_ids: vec![8008, -3],
        primary_style_id: 8000,
        sub_style_id: 8100,
    };
    match page.document() {
        Json::Object(m) => {
            let keys: Vec<&str> = m.iter().map(|(k, _)| k.as_str()).collect();
            assert_eq!(keys, vec!["name", "selectedPerkIds", "current", "primaryStyleId", "subStyleId"]);
            assert_eq!(m[0].1.as_str().map(|s| s.as_str()), Some("Precision & Domination"));
            let ids = m[1].1.as_array().unwrap();
            assert_eq!(ids.len(), 2);
            assert_eq!(ids[0].as_u64(), Some(8008));
            assert_eq!(ids[1].as_i64(), Some(-3));
            assert_eq!(m[2].1.as_bool(), Some(true));
            assert_eq!(m[3].1.as_i64(), Some(8000));
            assert_eq!(m[4].1.as_i64(), Some(8100));
        }
        _ => panic!("not an object"),
    }
}

#[test]
fn drawn_spells_are_classic_spells() {
    let data = parse(r#"[
        {"id": 4, "gameModes": ["CLASSIC"]},
        {"id": 30, "gameModes": ["KINGPORO"]},
        {"id": 14, "gameModes": ["CLASSIC", "URF"]}]"#);
    let ids = classic_spells(&data).unwrap();
    let available = available_spells(&ids, &items("[30, 14, 4]")).unwrap();
    let mut chosen = vec![];
    for r in [5usize, 3, 8, 1] {
        if chosen.len() < 2 {
            draw_spell(&mut chosen, &available, r);
        }
    }
    assert_eq!(chosen.len(), 2);
    assert_ne!(chosen[0], chosen[1]);
    for s in chosen {
        assert!(s == 4 || s == 14);
    }
}
