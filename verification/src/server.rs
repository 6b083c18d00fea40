//! The decisions of the HTTP front: which requests become jobs, and how what a
//! job sends becomes a response.

use crate::catalog;
use crate::catalog::{offered, EntryView, ModelEntry};
use crate::config::{BackendView, Config};
use crate::http;
use crate::http::status_from_u16;
use crate::json;
use crate::json::{error_body, parse_bytes, Json, JsonView, Member, MemberView};
use crate::payload;
use crate::payload::slice_of;
use crate::text::join2;
use crate::worker::{ProxyEvent, ProxyEventView, ProxyJob, ProxyJobView};
use bytes::Bytes;
use vstd::prelude::*;

verus! {

/// The longest request body, in bytes, that the proxy takes in: 16 MiB.
pub const MAX_BODY_BYTES: usize = 16_777_216;

/// A response with a JSON body.
pub struct Reply {
    pub status: u16,
    pub body: Json,
}

/// What a [`Reply`] holds.
pub struct ReplyView {
    pub status: u16,
    pub body: JsonView,
}

impl View for Reply {
    type V = ReplyView;

    open spec fn view(&self) -> ReplyView {
        ReplyView { status: self.status, body: self.body@ }
    }
}

/// A response that reports an error.
pub open spec fn error_reply(status: u16, message: Seq<char>) -> ReplyView {
    ReplyView { status, body: json::error_view(message) }
}

/// The response to a request that cannot be understood.
pub fn bad_request(message: String) -> (r: Reply)
    ensures
        r@ == error_reply(400, message@),
{
    Reply { status: 400, body: error_body(message) }
}

/// The response to a fault of the gateway itself.
pub fn internal_error(message: String) -> (r: Reply)
    ensures
        r@ == error_reply(500, message@),
{
    Reply { status: 500, body: error_body(message) }
}

/// The response when the response of a job could not be built.
pub fn unbuildable(error: &str) -> (r: Reply)
    ensures
        r@ == error_reply(500, "failed to build response: "@ + error@),
{
    internal_error(join2("failed to build response: ", error))
}

/// The response while no worker takes jobs.
pub fn worker_unavailable() -> (r: Reply)
    ensures
        r@ == error_reply(503, "proxy worker is not available"@),
{
    Reply { status: 503, body: error_body("proxy worker is not available".to_owned()) }
}

/// What a request comes to: a job, or a response that refuses it.
pub open spec fn admitted(r: Result<ProxyJob, Reply>) -> Result<ProxyJobView, ReplyView> {
    match r {
        Ok(job) => Ok(job@),
        Err(reply) => Err(reply@),
    }
}

/// What a request comes to whose body was parsed: a job for the model that it
/// names.
pub open spec fn admission(
    path: Seq<char>,
    body: Seq<u8>,
    document: Result<JsonView, Seq<char>>,
) -> Result<ProxyJobView, ReplyView> {
    match document {
        Err(message) => Err(error_reply(400, "invalid JSON body: "@ + message)),
        Ok(value) => match json::text_member(value, "model"@) {
            Some(model) => Ok(ProxyJobView { path, body, model }),
            None => Err(error_reply(400, "missing 'model' field"@)),
        },
    }
}

/// Decides on a request whose body was parsed.
pub fn proxy_parsed(path: String, body: Bytes, document: Result<Json, String>) -> (r: Result<
    ProxyJob,
    Reply,
>)
    ensures
        admitted(r) == admission(path@, payload::held(body), json::parsed(document)),
{
    match document {
        Err(message) => Err(bad_request(join2("invalid JSON body: ", message.as_str()))),
        Ok(value) => match value.text_at("model") {
            Some(model) => Ok(ProxyJob { path, body, model: model.clone() }),
            None => Err(bad_request("missing 'model' field".to_owned())),
        },
    }
}

/// Decides on a request. `body` is what was read of its body, or the reason why
/// that failed.
pub fn proxy(path: String, body: Result<Bytes, String>) -> (r: Result<ProxyJob, Reply>)
    ensures
        admitted(r) == match body {
            Err(message) => Err(error_reply(400, "failed to read request body: "@ + message@)),
            Ok(bytes) => admission(
                path@,
                payload::held(bytes),
                json::json_of_bytes(payload::held(bytes)),
            ),
        },
{
    match body {
        Err(message) => Err(
            bad_request(join2("failed to read request body: ", message.as_str())),
        ),
        Ok(bytes) => {
            let document = parse_bytes(slice_of(&bytes));
            proxy_parsed(path, bytes, document)
        },
    }
}

/// How the response to a request begins.
pub enum Opening {
    /// A status and a content type; the parts of the body follow.
    Stream { status: u16, content_type: String },
    /// A complete response.
    Whole(Reply),
}

/// What an [`Opening`] holds.
pub enum OpeningView {
    Stream { status: u16, content_type: Seq<char> },
    Whole(ReplyView),
}

impl View for Opening {
    type V = OpeningView;

    open spec fn view(&self) -> OpeningView {
        match self {
            Opening::Stream { status, content_type } => OpeningView::Stream {
                status: *status,
                content_type: content_type@,
            },
            Opening::Whole(reply) => OpeningView::Whole(reply@),
        }
    }
}

/// How the response begins, given the first event of the job, or `None` where
/// the job ended without one.
pub open spec fn opening(first: Option<ProxyEventView>) -> OpeningView {
    match first {
        Some(ProxyEventView::Respond { status, content_type }) => OpeningView::Stream {
            status: if http::status_exists(status) {
                status
            } else {
                502
            },
            content_type,
        },
        Some(ProxyEventView::Failed(message)) => OpeningView::Whole(error_reply(502, message)),
        _ => OpeningView::Whole(error_reply(502, "proxy worker closed unexpectedly"@)),
    }
}

/// Turns the first event of a job into the beginning of the response.
pub fn translate_response(first: Option<ProxyEvent>) -> (r: Opening)
    ensures
        r@ == opening(
            match first {
                Some(event) => Some(event@),
                None => None,
            },
        ),
{
    match first {
        Some(ProxyEvent::Respond { status, content_type }) => Opening::Stream {
            status: status_from_u16(status),
            content_type,
        },
        Some(ProxyEvent::Failed(message)) => Opening::Whole(
            Reply { status: 502, body: error_body(message) },
        ),
        _ => Opening::Whole(
            Reply {
                status: 502,
                body: error_body("proxy worker closed unexpectedly".to_owned()),
            },
        ),
    }
}

/// The part of the body that a later event of a job carries, if any.
pub fn body_part(event: ProxyEvent) -> (r: Option<Bytes>)
    ensures
        r == match event {
            ProxyEvent::Chunk(bytes) => Some(bytes),
            _ => None,
        },
{
    match event {
        ProxyEvent::Chunk(bytes) => Some(bytes),
        _ => None,
    }
}

/// A text member of an object.
pub open spec fn text_field(name: Seq<char>, value: Seq<char>) -> MemberView {
    MemberView { name, value: JsonView::Text(value) }
}

/// The JSON form of one entry of the model list.
pub open spec fn entry_json(e: EntryView) -> JsonView {
    JsonView::Object(
        seq![
            text_field("id"@, e.id),
            text_field("object"@, "model"@),
            text_field("owned_by"@, e.owned_by),
        ],
    )
}

/// The JSON form of the model list of a configuration.
pub open spec fn models_json(config: Seq<BackendView>) -> JsonView {
    JsonView::Object(
        seq![
            text_field("object"@, "list"@),
            MemberView {
                name: "data"@,
                value: JsonView::Array(
                    catalog::offered_models(config).map_values(|e: EntryView| entry_json(e)),
                ),
            },
        ],
    )
}

/// A text member of an object.
fn member_of(name: &str, value: String) -> (r: Member)
    ensures
        r.name@ == name@,
        r.value@ == JsonView::Text(value@),
{
    Member { name: name.to_owned(), value: Json::Text(value) }
}

/// The JSON form of one entry of the model list.
fn entry_value(e: &ModelEntry) -> (r: Json)
    ensures
        r@ == entry_json(e@),
{
    let r = Json::Object(
        vec![
            member_of("id", e.id.clone()),
            member_of("object", "model".to_owned()),
            member_of("owned_by", e.owned_by.clone()),
        ],
    );
    proof {
        json::object_view(r->Object_0@, entry_json(e@)->Object_0, r);
    }
    r
}

/// The list of all models that the gateway offers, in the form of the OpenAI
/// API.
pub fn models(config: &Config) -> (r: Json)
    ensures
        r@ == models_json(config@),
{
    let entries = offered(config);
    let ghost shown = entries@.map_values(|e: ModelEntry| e@);
    let mut items: Vec<Json> = Vec::new();
    let mut i: usize = 0;
    while i < entries.len()
        invariant
            i <= entries@.len(),
            items@.len() == i,
            shown == entries@.map_values(|e: ModelEntry| e@),
            forall|j: int| 0 <= j < i ==> (#[trigger] items@[j])@ == entry_json(shown[j]),
        decreases entries@.len() - i,
    {
        items.push(entry_value(&entries[i]));
        i += 1;
    }
    let data = Json::Array(items);
    assert(data@->Array_0 =~= shown.map_values(|e: EntryView| entry_json(e)));
    let r = Json::Object(
        vec![
            member_of("object", "list".to_owned()),
            Member { name: "data".to_owned(), value: data },
        ],
    );
    proof {
        json::object_view(r->Object_0@, models_json(config@)->Object_0, r);
    }
    r
}

/// The answer to a liveness probe.
pub fn health() -> (r: &'static str)
    ensures
        r@ == "llm-hub ok"@,
{
    "llm-hub ok"
}

} // verus!
