//! The text frames of the client's WebSocket protocol: `[2, id, call]`
//! calls an endpoint, `[5, event]` subscribes to an event, `[3, id, result]`
//! and `[4, id, code, message]` answer a call, `[8, event, payload]` reports
//! an event.

use vstd::prelude::*;
use crate::decimal::{decimal_text, signed_decimal_text, u64_to_text, i64_to_text};

verus! {

/// The frame that calls `call` (a method and a path).
pub open spec fn call_frame(call: Seq<char>) -> Seq<char> {
    "[2, \"bundolrequest\", \""@ + call + "\"]"@
}

/// The frame that calls `call` with the JSON text `body`.
pub open spec fn call_frame_with_body(call: Seq<char>, body: Seq<char>) -> Seq<char> {
    "[2, \"bundolrequest\", \""@ + call + "\", "@ + body + "]"@
}

/// The frame that subscribes to `event`.
pub open spec fn subscribe_frame(event: Seq<char>) -> Seq<char> {
    "[5, \""@ + event + "\"]"@
}

/// The call that asks whether the client's settings are ready.
pub open spec fn ready_query() -> Seq<char> {
    call_frame("GET /lol-settings/v2/ready"@)
}

/// The subscription to the settings becoming ready.
pub open spec fn ready_subscription() -> Seq<char> {
    subscribe_frame("OnJsonApiEvent_lol-settings_v2_ready"@)
}

/// The call that asks for the signed-in summoner.
pub open spec fn summoner_query() -> Seq<char> {
    call_frame("GET /lol-summoner/v1/current-summoner"@)
}

/// The call that asks for the current lobby.
pub open spec fn lobby_query() -> Seq<char> {
    call_frame("GET /lol-lobby/v2/lobby"@)
}

/// The events that the watcher follows once it is set up, in order.
pub open spec fn watched_events() -> Seq<Seq<char>> {
    seq![
        "OnJsonApiEvent_lol-lobby_v2_lobby"@,
        "OnJsonApiEvent_lol-summoner_v1_current-summoner"@,
        "OnJsonApiEvent_lol-champ-select_v1_session"@,
        "OnJsonApiEvent_lol-chat_v1_me"@,
    ]
}

/// The call that asks which champions may be picked.
pub open spec fn pickable_query() -> Seq<char> {
    call_frame("GET /lol-champ-select/v1/pickable-champion-ids"@)
}

/// The call that locks in `champion` for the action `action_id`.
pub open spec fn pick_request(action_id: u64, champion: u64) -> Seq<char> {
    call_frame_with_body(
        "PATCH /lol-champ-select/v1/session/actions/"@ + decimal_text(action_id as nat),
        "{ \"championId\": "@ + decimal_text(champion as nat) + ", \"completed\": true }"@,
    )
}

/// The call that asks for the summoner spells of the summoner `summoner_id`.
pub open spec fn spells_query(summoner_id: Seq<char>) -> Seq<char> {
    call_frame("GET /lol-collections/v1/inventories/"@ + summoner_id + "/spells"@)
}

/// The call that selects the summoner spells `first` and `second`.
pub open spec fn spells_request(first: i64, second: i64) -> Seq<char> {
    call_frame_with_body(
        "PATCH /lol-champ-select/v1/session/my-selection"@,
        "{ \"spell1Id\": "@ + signed_decimal_text(first as int) + ", \"spell2Id\": "@
            + signed_decimal_text(second as int) + " }"@,
    )
}

/// The call that asks for the rune styles.
pub open spec fn styles_query() -> Seq<char> {
    call_frame("GET /lol-perks/v1/styles"@)
}

/// The call that deletes the rune pages.
pub open spec fn delete_pages_request() -> Seq<char> {
    call_frame("DELETE /lol-perks/v1/pages"@)
}

/// The call that creates the rune page written as the JSON text `page`.
pub open spec fn create_page_request(page: Seq<char>) -> Seq<char> {
    call_frame_with_body("POST /lol-perks/v1/pages"@, page)
}

/// Builds a call frame.
pub fn call(endpoint: &str) -> (frame: String)
    ensures
        frame@ == call_frame(endpoint@),
{
    let mut frame = String::from_str("[2, \"bundolrequest\", \"");
    frame.append(endpoint);
    frame.append("\"]");
    frame
}

/// Builds a call frame with a body.
pub fn call_with_body(endpoint: &str, body: &str) -> (frame: String)
    ensures
        frame@ == call_frame_with_body(endpoint@, body@),
{
    let mut frame = String::from_str("[2, \"bundolrequest\", \"");
    frame.append(endpoint);
    frame.append("\", ");
    frame.append(body);
    frame.append("]");
    frame
}

/// Builds a subscription frame.
pub fn subscribe(event: &str) -> (frame: String)
    ensures
        frame@ == subscribe_frame(event@),
{
    let mut frame = String::from_str("[5, \"");
    frame.append(event);
    frame.append("\"]");
    frame
}

/// The ready query.
pub fn ready_query_frame() -> (frame: String)
    ensures
        frame@ == ready_query(),
{
    call("GET /lol-settings/v2/ready")
}

/// The ready subscription.
pub fn ready_subscription_frame() -> (frame: String)
    ensures
        frame@ == ready_subscription(),
{
    subscribe("OnJsonApiEvent_lol-settings_v2_ready")
}

/// The summoner query.
pub fn summoner_query_frame() -> (frame: String)
    ensures
        frame@ == summoner_query(),
{
    call("GET /lol-summoner/v1/current-summoner")
}

/// The lobby query.
pub fn lobby_query_frame() -> (frame: String)
    ensures
        frame@ == lobby_query(),
{
    call("GET /lol-lobby/v2/lobby")
}

/// The subscriptions to the watched events, in order.
pub fn watched_event_frames() -> (frames: Vec<String>)
    ensures
        frames@.len() == 4,
        forall|i: int| 0 <= i < 4 ==> #[trigger] frames@[i]@ == subscribe_frame(watched_events()[i]),
{
    let mut frames: Vec<String> = Vec::new();
    frames.push(subscribe("OnJsonApiEvent_lol-lobby_v2_lobby"));
    frames.push(subscribe("OnJsonApiEvent_lol-summoner_v1_current-summoner"));
    frames.push(subscribe("OnJsonApiEvent_lol-champ-select_v1_session"));
    frames.push(subscribe("OnJsonApiEvent_lol-chat_v1_me"));
    frames
}

/// The pickable-champions query.
pub fn pickable_query_frame() -> (frame: String)
    ensures
        frame@ == pickable_query(),
{
    call("GET /lol-champ-select/v1/pickable-champion-ids")
}

/// The call that locks in a champion.
pub fn pick_request_frame(action_id: u64, champion: u64) -> (frame: String)
    ensures
        frame@ == pick_request(action_id, champion),
{
    let mut path = String::from_str("PATCH /lol-champ-select/v1/session/actions/");
    let id_text = u64_to_text(action_id);
    path.append(id_text.as_str());
    let mut body = String::from_str("{ \"championId\": ");
    let champion_text = u64_to_text(champion);
    body.append(champion_text.as_str());
    body.append(", \"completed\": true }");
    call_with_body(path.as_str(), body.as_str())
}

/// The spells query for a summoner.
pub fn spells_query_frame(summoner_id: &str) -> (frame: String)
    ensures
        frame@ == spells_query(summoner_id@),
{
    let mut path = String::from_str("GET /lol-collections/v1/inventories/");
    path.append(summoner_id);
    path.append("/spells");
    call(path.as_str())
}

/// The call that selects two summoner spells.
pub fn spells_request_frame(first: i64, second: i64) -> (frame: String)
    ensures
        frame@ == spells_request(first, second),
{
    let mut body = String::from_str("{ \"spell1Id\": ");
    let first_text = i64_to_text(first);
    body.append(first_text.as_str());
    body.append(", \"spell2Id\": ");
    let second_text = i64_to_text(second);
    body.append(second_text.as_str());
    body.append(" }");
    call_with_body("PATCH /lol-champ-select/v1/session/my-selection", body.as_str())
}

/// The styles query.
pub fn styles_query_frame() -> (frame: String)
    ensures
        frame@ == styles_query(),
{
    call("GET /lol-perks/v1/styles")
}

/// The call that deletes the rune pages.
pub fn delete_pages_frame() -> (frame: String)
    ensures
        frame@ == delete_pages_request(),
{
    call("DELETE /lol-perks/v1/pages")
}

/// The call that creates a rune page from its JSON text.
pub fn create_page_frame(page: &str) -> (frame: String)
    ensures
        frame@ == create_page_request(page@),
{
    call_with_body("POST /lol-perks/v1/pages", page)
}

} // verus!
