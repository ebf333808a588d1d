//! Requests to the client's local HTTP API, and the target of its WebSocket.

use vstd::prelude::*;
use crate::decimal::{decimal_text, u64_to_text};
use crate::credentials::{authorization, authorization_text, base64_standard, handshake_key_text};
use crate::json::{Json, member_set};

verus! {

/// An HTTP method.
#[derive(Clone, Copy, PartialEq, Eq, Structural)]
pub enum Method {
    Get,
    Post,
    Put,
}

/// What a request carries.
pub enum Body {
    Empty,
    /// This text, as it stands.
    Text(String),
    /// This value, written as JSON.
    Json(Json),
}

/// A request to the local API.
pub struct HttpRequest {
    pub method: Method,
    pub url: String,
    pub authorization: String,
    pub body: Body,
}

/// The address of `path` on the local API at `port`.
pub open spec fn endpoint(port: u32, path: Seq<char>) -> Seq<char> {
    "https://127.0.0.1:"@ + decimal_text(port as nat) + path
}

/// The body that asks for a lobby of queue 430 (blind pick).
pub open spec fn lobby_body() -> Seq<char> {
    "{ \"queueId\": 430, \"isCustom\": false }"@
}

/// The address of `path` on the local API at `port`.
pub fn endpoint_url(port: u32, path: &str) -> (url: String)
    ensures
        url@ == endpoint(port, path@),
{
    let mut url = String::from_str("https://127.0.0.1:");
    let port_text = u64_to_text(port as u64);
    url.append(port_text.as_str());
    url.append(path);
    url
}

/// The request that creates a blind pick lobby.
pub fn lobby_creation(port: u32, encoded: &str) -> (r: HttpRequest)
    ensures
        r.method == Method::Post,
        r.url@ == endpoint(port, "/lol-lobby/v2/lobby"@),
        r.authorization@ == authorization_text(encoded@),
        r.body matches Body::Text(t) && t@ == lobby_body(),
{
    HttpRequest {
        method: Method::Post,
        url: endpoint_url(port, "/lol-lobby/v2/lobby"),
        authorization: authorization(encoded),
        body: Body::Text(String::from_str("{ \"queueId\": 430, \"isCustom\": false }")),
    }
}

/// The request that reads the user's chat profile.
pub fn chat_profile_query(port: u32, encoded: &str) -> (r: HttpRequest)
    ensures
        r.method == Method::Get,
        r.url@ == endpoint(port, "/lol-chat/v1/me"@),
        r.authorization@ == authorization_text(encoded@),
        r.body is Empty,
{
    HttpRequest {
        method: Method::Get,
        url: endpoint_url(port, "/lol-chat/v1/me"),
        authorization: authorization(encoded),
        body: Body::Empty,
    }
}

/// Whether `req` writes the chat profile `profile` back to the API at
/// `port` with its `availability` set to `status`.
pub open spec fn is_availability_update(
    req: HttpRequest,
    port: u32,
    encoded: Seq<char>,
    profile: Json,
    status: Seq<char>,
) -> bool {
    &&& req.method == Method::Put
    &&& req.url@ == endpoint(port, "/lol-chat/v1/me"@)
    &&& req.authorization@ == authorization_text(encoded)
    &&& req.body matches Body::Json(j) && exists|s: String| s@ == status
        && member_set(profile, "availability"@, Json::Str(s), j)
}

/// What follows the read of the chat profile.
pub enum StatusFollowUp {
    /// No write: the read failed or did not succeed.
    Nothing,
    /// Write the profile back with this request.
    Put(HttpRequest),
    /// The profile is neither an object nor null, where setting a member panics.
    Refused,
}

/// What follows the read of the chat profile: the write of the profile with
/// `availability` set to `status`, only where the read was `answered` with
/// a `success` status and its body parsed as `profile`.
pub fn status_follow_up(
    port: u32,
    encoded: &str,
    answered: bool,
    success: bool,
    profile: Option<Json>,
    status: &str,
) -> (r: StatusFollowUp)
    ensures
        r is Nothing <==> !(answered && success && profile is Some),
        r is Refused <==> (answered && success && (profile matches Some(p) && !(p is Object || p is Null))),
        r matches StatusFollowUp::Put(req) ==> profile matches Some(p)
            && is_availability_update(req, port, encoded@, p, status@),
{
    if !(answered && success) {
        return StatusFollowUp::Nothing;
    }
    match profile {
        None => StatusFollowUp::Nothing,
        Some(p) => match availability_update(port, encoded, p, status) {
            Some(req) => StatusFollowUp::Put(req),
            None => StatusFollowUp::Refused,
        },
    }
}

/// The request that writes the chat profile `profile` back with its
/// `availability` set to `status`. `None` where the profile is neither an
/// object nor null, where setting the member panics.
pub fn availability_update(port: u32, encoded: &str, profile: Json, status: &str) -> (r: Option<HttpRequest>)
    ensures
        r is Some <==> (profile is Object || profile is Null),
        r matches Some(req) ==> is_availability_update(req, port, encoded@, profile, status@),
{
    let value = Json::Str(status.to_owned());
    let ghost v = value;
    match profile.set_member("availability", value) {
        Some(j) => {
            proof {
                if let Json::Str(s) = v {
                    assert(s@ == status@);
                }
            }
            Some(HttpRequest {
                method: Method::Put,
                url: endpoint_url(port, "/lol-chat/v1/me"),
                authorization: authorization(encoded),
                body: Body::Json(j),
            })
        },
        None => None,
    }
}

/// The request that reads which champions may be picked.
pub fn pickable_champions_query(port: u32, encoded: &str) -> (r: HttpRequest)
    ensures
        r.method == Method::Get,
        r.url@ == endpoint(port, "/lol-champ-select/v1/pickable-champion-ids"@),
        r.authorization@ == authorization_text(encoded@),
        r.body is Empty,
{
    HttpRequest {
        method: Method::Get,
        url: endpoint_url(port, "/lol-champ-select/v1/pickable-champion-ids"),
        authorization: authorization(encoded),
        body: Body::Empty,
    }
}

/// What the client's answer to the pickable champions query gives back:
/// the answer's JSON where the request went through with a success status,
/// nothing otherwise.
pub fn pickable_champions_answer(sent: bool, success: bool, answer: Option<Json>) -> (r: Option<Json>)
    ensures
        r == (if sent && success { answer } else { None }),
{
    if sent && success {
        answer
    } else {
        None
    }
}

/// The parts of a parsed URL that the handshake uses: its host and its
/// serialization.
pub struct UrlParts {
    pub host: Option<String>,
    pub serialization: String,
}

/// The parts of a URL seen as text.
pub open spec fn url_parts_view(p: UrlParts) -> (Option<Seq<char>>, Seq<char>) {
    (
        match p.host {
            Some(h) => Some(h@),
            None => None,
        },
        p.serialization@,
    )
}

/// What `url::Url::parse` makes of `text`: `None` where it refuses it, else
/// the URL's host and serialization.
pub uninterp spec fn url_parts(text: Seq<char>) -> Option<(Option<Seq<char>>, Seq<char>)>;

/// Calls `reqwest::Url::parse` (that is `url::Url::parse`), then `host_str`
/// and `as_str` on the URL it gives. Claimed: the result is a function of
/// the text alone, named `url_parts`. Nothing more is claimed of it.
#[verifier::external_body]
fn parse_url(text: &str) -> (r: Option<UrlParts>)
    ensures
        r is Some <==> url_parts(text@) is Some,
        r matches Some(p) ==> url_parts(text@) == Some(url_parts_view(p)),
{
    match reqwest::Url::parse(text) {
        Ok(u) => Some(UrlParts { host: u.host_str().map(|h| h.to_owned()), serialization: u.as_str().to_owned() }),
        Err(_) => None,
    }
}

/// What the WebSocket handshake sends.
pub struct Handshake {
    /// The URI of the request.
    pub uri: String,
    /// The `Host` header.
    pub host: String,
    /// Where the TCP connection goes: `host:port`.
    pub address: String,
    /// The `Authorization` header.
    pub authorization: String,
    /// The `Sec-WebSocket-Key` header.
    pub key: String,
}

/// The URL of the client's WebSocket at `port`.
pub open spec fn socket_url(port: u32) -> Seq<char> {
    "wss://"@ + "127.0.0.1:"@ + decimal_text(port as nat) + "/"@
}

/// The handshake for the client at `port`, once its URL is parsed into
/// `parts` and a key is drawn; `None` where the URL has no host.
pub fn handshake_from(port: u32, encoded: &str, parts: UrlParts, key: String) -> (h: Option<Handshake>)
    ensures
        h is Some <==> parts.host is Some,
        h matches Some(h) ==> {
            &&& Some(h.host@) == url_parts_view(parts).0
            &&& h.uri@ == url_parts_view(parts).1
            &&& h.address@ == h.host@ + ":"@ + decimal_text(port as nat)
            &&& h.authorization@ == authorization_text(encoded@)
            &&& h.key@ == key@
        },
{
    let UrlParts { host, serialization } = parts;
    match host {
        Some(host) => {
            let mut address = host.clone();
            address.append(":");
            let port_text = u64_to_text(port as u64);
            address.append(port_text.as_str());
            Some(Handshake { uri: serialization, host, address, authorization: authorization(encoded), key })
        },
        None => None,
    }
}

/// The URL text of the client's WebSocket at `port`.
pub fn socket_url_text(port: u32) -> (t: String)
    ensures
        t@ == socket_url(port),
{
    let mut t = String::from_str("wss://");
    t.append("127.0.0.1:");
    let port_text = u64_to_text(port as u64);
    t.append(port_text.as_str());
    t.append("/");
    t
}

/// The handshake for the client at `port`: parses its URL and draws a
/// random key. `None` where the URL does not parse or has no host.
pub fn handshake(port: u32, encoded: &str) -> (h: Option<Handshake>)
    ensures
        h is Some <==> (url_parts(socket_url(port)) matches Some(p) && p.0 is Some),
        h matches Some(h) ==> {
            &&& url_parts(socket_url(port)) == Some((Some(h.host@), h.uri@))
            &&& h.address@ == h.host@ + ":"@ + decimal_text(port as nat)
            &&& h.authorization@ == authorization_text(encoded@)
            &&& h.key@.len() == 24
            &&& exists|bytes: Seq<u8>| bytes.len() == 16 && h.key@ == base64_standard(bytes)
        },
{
    let url = socket_url_text(port);
    match parse_url(url.as_str()) {
        Some(parts) => {
            let bytes = crate::chance::random_key_bytes();
            let key = handshake_key_text(&bytes);
            assert(bytes@.len() == 16);
            handshake_from(port, encoded, parts, key)
        },
        None => None,
    }
}

} // verus!
