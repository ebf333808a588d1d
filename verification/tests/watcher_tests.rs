use lcu_autopick::frames;
use lcu_autopick::json::{Json, JsonNumber};
use lcu_autopick::watcher::{Event, Output, Setup, Status, Watcher};

fn from_value(v: &serde_json::Value) -> Json {
    match v {
        serde_json::Value::Null => Json::Null,
        serde_json::Value::Bool(b) => Json::Bool(*b),
        serde_json::Value::Number(n) => {
            if let Some(u) = n.as_u64() {
                Json::Number(JsonNumber::PosInt(u))
            } else if let Some(i) = n.as_i64() {
                Json::Number(JsonNumber::NegInt(i))
            } else {
                Json::Number(JsonNumber::Float(n.to_string()))
            }
        }
        serde_json::Value::String(s) => Json::Str(s.clone()),
        serde_json::Value::Array(a) => Json::Array(a.iter().map(from_value).collect()),
        serde_json::Value::Object(m) => {
            Json::Object(m.iter().map(|(k, v)| (k.clone(), from_value(v))).collect())
        }
    }
}

fn received(text: &str, ready: bool) -> Event {
    let frame = serde_json::from_str::<Vec<serde_json::Value>>(text)
        .ok()
        .map(|items| items.iter().map(from_value).collect());
    Event::Received { text: text.to_string(), frame, is_close: false, ready }
}

fn sent(outputs: &[Output]) -> Vec<String> {
    outputs
        .iter()
        .map(|o| match o {
            Output::Send(s) => s.clone(),
            Output::Emit(s) => format!("emit {}", s),
            Output::CreatePage(p) => format!("page {} {:?} {} {}", p.name, p.perk_ids, p.primary_style_id, p.sub_style_id),
            Output::Summoner { name, id } => format!("summoner {} {:?}", name, id.as_u64()),
            Output::LobbyMembers(m) => format!("members {:?}", m.as_array().map(|a| a.len())),
        })
        .collect()
}

const CREATE: &str = r#"[8, "OnJsonApiEvent_lol-champ-select_v1_session", {"uri": "/lol-champ-select/v1/session", "eventType": "Create", "data": {"localPlayerCellId": 3, "actions": [[{"id": 1, "actorCellId": 0}, {"id": 4, "actorCellId": 3}]]}}]"#;

const STYLES: &str = r#"[3, "bundolrequest", [
 {"id": 8000, "name": "Precision", "allowedSubStyles": [8100], "slots": [
    {"type": "kKeyStone", "perks": [8005, 8008]},
    {"type": "kMixedRegularSplashable", "perks": [9101, 9111]},
    {"type": "kMixedRegularSplashable", "perks": [9104, 9105]},
    {"type": "kMixedRegularSplashable", "perks": [8014, 8017]},
    {"type": "kStatMod", "perks": [5008]}, {"type": "kStatMod", "perks": [5008]}, {"type": "kStatMod", "perks": [5001]}]},
 {"id": 8100, "name": "Domination", "allowedSubStyles": [8000], "slots": [
    {"type": "kKeyStone", "perks": [8112]},
    {"type": "kMixedRegularSplashable", "perks": [8126, 8139]},
    {"type": "kMixedRegularSplashable", "perks": [8136, 8120]},
    {"type": "kMixedRegularSplashable", "perks": [8135, 8134]},
    {"type": "kStatMod", "perks": [5008]}, {"type": "kStatMod", "perks": [5002]}, {"type": "kStatMod", "perks": [5003]}]}
]]"#;

/// A session set up and watching, with the summoner id kept.
fn watching() -> Watcher {
    let (mut w, first) = Watcher::new(vec![4, 14, 12]);
    assert_eq!(first, frames::ready_query_frame());
    let out = w.step(received(r#"[3, "bundolrequest", true]"#, true), 0);
    assert_eq!(sent(&out.outputs), vec![frames::summoner_query_frame()]);
    let out = w.step(received(r#"[3, "bundolrequest", {"displayName": "Me", "summonerId": 2398471}]"#, true), 0);
    assert_eq!(sent(&out.outputs), vec!["summoner Me Some(2398471)".to_string(), frames::lobby_query_frame()]);
    w.set_summoner_id("2398471".to_string());
    let out = w.step(received(r#"[3, "bundolrequest", {"members": [{"summonerId": 1}]}]"#, true), 0);
    let mut expected = vec!["members Some(1)".to_string()];
    expected.extend(frames::watched_event_frames());
    assert_eq!(sent(&out.outputs), expected);
    assert!(out.status == Status::Waiting);
    assert!(w.setup() == Setup::Watching);
    w
}

#[test]
fn setup_asks_in_order() {
    let w = watching();
    assert_eq!(w.summoner_id(), "2398471");
    assert_eq!(w.runs(), 0);
}

#[test]
fn setup_waits_for_the_ready_event_when_not_ready() {
    let (mut w, _) = Watcher::new(vec![]);
    let out = w.step(received(r#"[3, "bundolrequest", false]"#, true), 0);
    assert_eq!(sent(&out.outputs), vec![frames::ready_subscription_frame()]);
    let out = w.step(received("", true), 0);
    assert!(out.outputs.is_empty());
    let out = w.step(Event::ReadFailed, 0);
    assert!(out.outputs.is_empty() && out.status == Status::Waiting);
    let out = w.step(received(r#"[8, "OnJsonApiEvent_lol-settings_v2_ready", {}]"#, true), 0);
    assert_eq!(sent(&out.outputs), vec![frames::summoner_query_frame()]);
}

#[test]
fn error_answer_to_ready_query_waits_for_the_event() {
    let (mut w, _) = Watcher::new(vec![]);
    let out = w.step(received(r#"[4, "bundolrequest", 404, "not found"]"#, true), 0);
    assert_eq!(sent(&out.outputs), vec![frames::ready_subscription_frame()]);
}

#[test]
fn lobby_error_still_subscribes() {
    let (mut w, _) = Watcher::new(vec![]);
    w.step(received(r#"[3, "bundolrequest", true]"#, true), 0);
    w.step(received(r#"[4, "bundolrequest", 404, "no summoner"]"#, true), 0);
    let out = w.step(received(r#"[4, "bundolrequest", 404, "no lobby"]"#, true), 0);
    assert_eq!(sent(&out.outputs), frames::watched_event_frames());
}

#[test]
fn events_during_setup_are_handled_at_the_top_level() {
    let (mut w, _) = Watcher::new(vec![]);
    let out = w.step(received(r#"[8, "OnJsonApiEvent_x", {"uri": "/x"}]"#, true), 0);
    assert!(out.outputs.is_empty());
    let text = r#"[8, "OnJsonApiEvent_x", {"uri": "/lol-lobby/v2/lobby"}]"#;
    let out = w.step(received(text, true), 0);
    assert_eq!(sent(&out.outputs), vec![format!("emit {}", text)]);
    let out = w.step(received(r#"[3, "bundolrequest", true]"#, true), 0);
    assert_eq!(sent(&out.outputs), vec![frames::summoner_query_frame()]);
}

#[test]
fn not_ready_forwards_everything() {
    let mut w = watching();
    let out = w.step(received(CREATE, false), 0);
    assert_eq!(sent(&out.outputs), vec![format!("emit {}", CREATE)]);
    assert_eq!(w.runs(), 0);
    let out = w.step(received("not json", false), 0);
    assert_eq!(sent(&out.outputs), vec!["emit not json".to_string()]);
}

#[test]
fn ready_drops_frames_that_are_not_events() {
    let mut w = watching();
    let out = w.step(received("not json", true), 0);
    assert!(out.outputs.is_empty() && out.status == Status::Waiting);
    let out = w.step(received(r#"[3, "bundolrequest", 1]"#, true), 0);
    assert!(out.outputs.is_empty() && out.status == Status::Waiting);
    let out = w.step(received("[]", true), 0);
    assert!(out.status == Status::Failed);
    let out = w.step(received("[]", true), 0);
    assert!(out.status == Status::Finished);
}

#[test]
fn close_frame_ends_the_session() {
    let mut w = watching();
    let out = w.step(Event::Received { text: String::new(), frame: None, is_close: true, ready: false }, 0);
    assert_eq!(sent(&out.outputs), vec!["emit ".to_string()]);
    assert!(out.status == Status::Closed { during_setup: false });
    assert!(w.is_finished());
    let (mut w, _) = Watcher::new(vec![]);
    w.step(received(r#"[8, "x", {}]"#, true), 0);
    let out = w.step(Event::Received { text: String::new(), frame: None, is_close: true, ready: false }, 0);
    assert!(out.status == Status::Closed { during_setup: true });
}

#[test]
fn read_failure_inside_a_run_fails() {
    let mut w = watching();
    let out = w.step(Event::ReadFailed, 0);
    assert!(out.status == Status::Waiting);
    w.step(received(CREATE, true), 0);
    let out = w.step(Event::ReadFailed, 0);
    assert!(out.status == Status::Failed);
}

#[test]
fn champion_select_runs_to_the_end() {
    let mut w = watching();
    let out = w.step(received(CREATE, true), 0);
    assert_eq!(sent(&out.outputs), vec![frames::pickable_query_frame()]);
    assert_eq!(w.runs(), 1);

    // A frame that is no answer passes the next frame to the top level.
    let out = w.step(received(r#"[8, "OnJsonApiEvent_lol-chat_v1_me", {"uri": "/lol-chat/v1/me"}]"#, true), 0);
    assert!(out.outputs.is_empty());
    let lobby = r#"[8, "OnJsonApiEvent_lol-lobby_v2_lobby", {"uri": "/lol-lobby/v2/lobby"}]"#;
    let out = w.step(received(lobby, true), 0);
    assert_eq!(sent(&out.outputs), vec![format!("emit {}", lobby)]);

    // An error answer to the pickable query is waited past.
    let out = w.step(received(r#"[4, "bundolrequest", 500, "busy"]"#, true), 0);
    assert!(out.outputs.is_empty() && out.status == Status::Waiting);

    let answer = received(r#"[3, "bundolrequest", [266, 103, 84]]"#, true);
    assert!(w.draws(&answer));
    let out = w.step(answer, 4);
    assert_eq!(sent(&out.outputs), vec![frames::pick_request_frame(4, 103)]);

    let out = w.step(received(r#"[3, "bundolrequest", null]"#, true), 0);
    assert_eq!(sent(&out.outputs), vec![frames::spells_query_frame("2398471")]);

    let out = w.step(received(r#"[3, "bundolrequest", {"spells": [14, 4, 99]}]"#, true), 0);
    assert!(out.outputs.is_empty() && out.status == Status::Continue);
    assert!(w.draws(&Event::Continue));
    let out = w.step(Event::Continue, 0);
    assert!(out.status == Status::Continue);
    let out = w.step(Event::Continue, 2);
    assert!(out.status == Status::Continue);
    let out = w.step(Event::Continue, 1);
    assert_eq!(sent(&out.outputs), vec![frames::spells_request_frame(4, 14)]);

    let out = w.step(received(r#"[3, "bundolrequest", null]"#, true), 0);
    assert_eq!(sent(&out.outputs), vec![frames::styles_query_frame()]);

    let numbers = [0usize, 1, 0, 1, 0, 0, 1, 1, 0, 0, 0, 0];
    let mut next = 0;
    let styles = received(STYLES, true);
    assert!(w.draws(&styles));
    let mut out = w.step(styles, numbers[next]);
    next += 1;
    while out.status == Status::Continue {
        let r = if w.draws(&Event::Continue) {
            next += 1;
            numbers[next - 1]
        } else {
            0
        };
        out = w.step(Event::Continue, r);
    }
    assert_eq!(next, numbers.len());
    assert_eq!(sent(&out.outputs), vec![frames::delete_pages_frame()]);

    let out = w.step(received(r#"[4, "bundolrequest", 400, "no pages"]"#, true), 0);
    assert_eq!(
        sent(&out.outputs),
        vec!["page Precision & Domination [8008, 9101, 9105, 8014, 8139, 8135, 5008, 5002, 5003] 8000 8100".to_string()]
    );

    let out = w.step(received(r#"[3, "bundolrequest", {}]"#, true), 0);
    assert_eq!(sent(&out.outputs), vec![format!("emit {}", CREATE)]);
    assert!(out.status == Status::Waiting);
    assert_eq!(w.runs(), 0);
}

#[test]
fn a_new_champion_select_inside_a_run_nests() {
    let mut w = watching();
    w.step(received(CREATE, true), 0);
    w.step(received(r#"[8, "x", {"uri": "/x"}]"#, true), 0);
    let out = w.step(received(CREATE, true), 0);
    assert_eq!(sent(&out.outputs), vec![frames::pickable_query_frame()]);
    assert_eq!(w.runs(), 2);
}

#[test]
fn error_answer_without_message_fails() {
    let mut w = watching();
    w.step(received(CREATE, true), 0);
    w.step(received(r#"[3, "bundolrequest", [1]]"#, true), 0);
    let out = w.step(received(r#"[4, "bundolrequest", 500]"#, true), 0);
    assert!(out.status == Status::Failed);
}

#[test]
fn advance_draws_a_pickable_champion() {
    let mut w = watching();
    w.advance(received(CREATE, true));
    let out = w.advance(received(r#"[3, "bundolrequest", [266, 103, 84]]"#, true));
    let s = sent(&out.outputs);
    assert!(
        s == vec![frames::pick_request_frame(4, 266)]
            || s == vec![frames::pick_request_frame(4, 103)]
            || s == vec![frames::pick_request_frame(4, 84)]
    );
}

#[test]
fn no_spell_available_fails_the_run() {
    let mut w = watching();
    w.step(received(CREATE, true), 0);
    w.step(received(r#"[3, "bundolrequest", [1]]"#, true), 0);
    w.step(received(r#"[3, "bundolrequest", {}]"#, true), 0);
    let out = w.step(received(r#"[3, "bundolrequest", {"spells": [99]}]"#, true), 0);
    assert!(out.status == Status::Continue);
    assert!(!w.draws(&Event::Continue));
    let out = w.step(Event::Continue, 0);
    assert!(out.status == Status::Failed);
}

#[test]
fn steps_that_draw_nothing_ignore_the_number() {
    let mut a = watching();
    let mut b = watching();
    let e = received(CREATE, true);
    assert!(!a.draws(&e));
    let out_a = a.step(received(CREATE, true), 0);
    let out_b = b.step(received(CREATE, true), 99);
    assert_eq!(sent(&out_a.outputs), sent(&out_b.outputs));
    let e = received(r#"[4, "bundolrequest", 500, "busy"]"#, true);
    assert!(!a.draws(&e));
    let out_a = a.step(e, 5);
    let out_b = b.step(received(r#"[4, "bundolrequest", 500, "busy"]"#, true), 6);
    assert_eq!(sent(&out_a.outputs), sent(&out_b.outputs));
    assert!(out_a.status == out_b.status);
}
