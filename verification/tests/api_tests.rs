use lcu_autopick::api::{
    availability_update, status_follow_up, StatusFollowUp, chat_profile_query, endpoint_url, handshake, handshake_from, lobby_creation,
    pickable_champions_answer, pickable_champions_query, socket_url_text, Body, Method, UrlParts,
};
use lcu_autopick::json::Json;

#[test]
fn endpoints_are_on_localhost() {
    assert_eq!(endpoint_url(53421, "/lol-lobby/v2/lobby"), "https://127.0.0.1:53421/lol-lobby/v2/lobby");
    assert_eq!(endpoint_url(0, ""), "https://127.0.0.1:0");
}

#[test]
fn lobby_creation_asks_for_blind_pick() {
    let r = lobby_creation(53421, "cmlvdDphYmM=");
    assert!(r.method == Method::Post);
    assert_eq!(r.url, "https://127.0.0.1:53421/lol-lobby/v2/lobby");
    assert_eq!(r.authorization, "Basic cmlvdDphYmM=");
    match r.body {
        Body::Text(t) => assert_eq!(t, "{ \"queueId\": 430, \"isCustom\": false }"),
        _ => panic!("no body"),
    }
}

#[test]
fn status_queries_read_the_chat_profile() {
    let r = chat_profile_query(1, "e");
    assert!(r.method == Method::Get);
    assert_eq!(r.url, "https://127.0.0.1:1/lol-chat/v1/me");
    assert_eq!(r.authorization, "Basic e");
    assert!(matches!(r.body, Body::Empty));
    let r = pickable_champions_query(2, "e");
    assert!(r.method == Method::Get);
    assert_eq!(r.url, "https://127.0.0.1:2/lol-champ-select/v1/pickable-champion-ids");
}

#[test]
fn availability_update_puts_the_profile_back() {
    let profile = Json::Object(vec![
        ("availability".to_string(), Json::Str("chat".to_string())),
        ("name".to_string(), Json::Str("Me".to_string())),
    ]);
    let r = availability_update(3, "e", profile, "away").unwrap();
    assert!(r.method == Method::Put);
    assert_eq!(r.url, "https://127.0.0.1:3/lol-chat/v1/me");
    match r.body {
        Body::Json(j) => {
            assert_eq!(j.get("availability").and_then(|a| a.as_str()).map(|s| s.as_str()), Some("away"));
            assert_eq!(j.get("name").and_then(|a| a.as_str()).map(|s| s.as_str()), Some("Me"));
        }
        _ => panic!("no JSON body"),
    }
    assert!(availability_update(3, "e", Json::Bool(true), "away").is_none());
}

#[test]
fn pickable_answer_only_on_success() {
    assert!(pickable_champions_answer(true, true, Some(Json::Null)).is_some());
    assert!(pickable_champions_answer(true, false, Some(Json::Null)).is_none());
    assert!(pickable_champions_answer(false, false, None).is_none());
}

#[test]
fn socket_handshake_targets_localhost() {
    assert_eq!(socket_url_text(2999), "wss://127.0.0.1:2999/");
    let h = handshake(2999, "cmlvdDphYmM=").unwrap();
    assert_eq!(h.uri, "wss://127.0.0.1:2999/");
    assert_eq!(h.host, "127.0.0.1");
    assert_eq!(h.address, "127.0.0.1:2999");
    assert_eq!(h.authorization, "Basic cmlvdDphYmM=");
    assert_eq!(h.key.len(), 24);
    assert!(h.key.ends_with("=="));
}

#[test]
fn default_port_drops_out_of_the_uri() {
    let h = handshake(443, "e").unwrap();
    assert_eq!(h.uri, "wss://127.0.0.1/");
    assert_eq!(h.address, "127.0.0.1:443");
}

#[test]
fn handshake_needs_a_host() {
    let parts = UrlParts { host: None, serialization: "x:".to_string() };
    assert!(handshake_from(1, "e", parts, "k".to_string()).is_none());
    let parts = UrlParts { host: Some("h".to_string()), serialization: "wss://h:1/".to_string() };
    let h = handshake_from(1, "e", parts, "k".to_string()).unwrap();
    assert_eq!(h.address, "h:1");
    assert_eq!(h.key, "k");
}

#[test]
fn status_is_written_only_after_a_successful_read() {
    let profile = || Some(Json::Object(vec![("availability".to_string(), Json::Str("chat".to_string()))]));
    assert!(matches!(status_follow_up(1, "e", false, false, None, "away"), StatusFollowUp::Nothing));
    assert!(matches!(status_follow_up(1, "e", true, false, None, "away"), StatusFollowUp::Nothing));
    assert!(matches!(status_follow_up(1, "e", true, true, Some(Json::Bool(true)), "away"), StatusFollowUp::Refused));
    match status_follow_up(1, "e", true, true, profile(), "away") {
        StatusFollowUp::Put(r) => {
            assert!(r.method == Method::Put);
            assert_eq!(r.url, "https://127.0.0.1:1/lol-chat/v1/me");
            match r.body {
                Body::Json(j) => assert_eq!(j.get("availability").and_then(|a| a.as_str()).map(|s| s.as_str()), Some("away")),
                _ => panic!("no JSON body"),
            }
        }
        _ => panic!("no write"),
    }
}
