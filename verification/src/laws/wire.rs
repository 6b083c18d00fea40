//! What requests, responses and model lists hold, told on the members of the
//! documents and on the numbers of the statuses alone.

use crate::catalog;
use crate::catalog::EntryView;
use crate::config::BackendView;
use crate::fetch;
use crate::fetch::{FetchActionView, FetchEventView, FetchPhase, FetchView};
use crate::http;
use crate::json;
use crate::json::{JsonView, MemberView};
use crate::laws::choice;
use crate::laws::models;
use crate::server;
use crate::server::ReplyView;
use crate::worker::ProxyEventView;
use vstd::prelude::*;

verus! {

/// Whether the member at `i` is the first with the name `name`.
pub open spec fn first_named(fields: Seq<MemberView>, i: int, name: Seq<char>) -> bool {
    &&& 0 <= i < fields.len()
    &&& fields[i].name == name
    &&& forall|j: int| 0 <= j < i ==> (#[trigger] fields[j]).name != name
}

/// Whether `value` is an object whose first member with the name `name` holds
/// `inner`.
pub open spec fn has_member(value: JsonView, name: Seq<char>, inner: JsonView) -> bool {
    value is Object && exists|i: int|
        #[trigger] first_named(value->Object_0, i, name) && value->Object_0[i].value == inner
}

/// A member is found by its name: the first one of that name in an object. What
/// is no object, or has no member of that name, has none.
pub proof fn members_are_found_by_name(value: JsonView, name: Seq<char>)
    ensures
        forall|inner: JsonView| #[trigger]
            has_member(value, name, inner) <==> json::member(value, name) == Some(inner),
        json::member(value, name) is None <==> !(value is Object) || forall|i: int|
            0 <= i < value->Object_0.len() ==> (#[trigger] value->Object_0[i]).name != name,
{
    if value is Object {
        first_is_looked_up(value->Object_0, name);
        let fields = value->Object_0;
        assert forall|inner: JsonView| #[trigger]
            has_member(value, name, inner) <==> json::member(value, name) == Some(inner) by {
            if has_member(value, name, inner) {
                let i = choose|i: int| #[trigger]
                    first_named(fields, i, name) && fields[i].value == inner;
                assert(first_named(fields, i, name));
            }
            if json::lookup(fields, name) == Some(inner) {
                let i = choose|i: int| #[trigger]
                    first_named(fields, i, name) && json::lookup(fields, name) == Some(
                        fields[i].value,
                    );
                assert(first_named(fields, i, name));
            }
        }
    }
}

/// A text is found by its name: it is the member of that name, where that is a
/// text.
pub proof fn texts_are_found_by_name(value: JsonView, name: Seq<char>)
    ensures
        forall|s: Seq<char>| #[trigger]
            has_member(value, name, JsonView::Text(s)) <==> json::text_member(value, name) == Some(
                s,
            ),
{
    members_are_found_by_name(value, name);
}

proof fn first_is_looked_up(fields: Seq<MemberView>, name: Seq<char>)
    ensures
        forall|i: int| #[trigger]
            first_named(fields, i, name) ==> json::lookup(fields, name) == Some(fields[i].value),
        json::lookup(fields, name) is Some ==> exists|i: int| #[trigger]
            first_named(fields, i, name) && json::lookup(fields, name) == Some(fields[i].value),
        json::lookup(fields, name) is None <==> forall|i: int|
            0 <= i < fields.len() ==> (#[trigger] fields[i]).name != name,
    decreases fields.len(),
{
    if fields.len() > 0 {
        let rest = fields.skip(1);
        first_is_looked_up(rest, name);
        if fields[0].name == name {
            assert(first_named(fields, 0, name));
        } else {
            assert forall|i: int| #[trigger] first_named(fields, i, name) implies json::lookup(
                fields,
                name,
            ) == Some(fields[i].value) by {
                assert(i > 0);
                assert forall|j: int| 0 <= j < i - 1 implies (#[trigger] rest[j]).name != name by {
                    assert(rest[j] == fields[j + 1]);
                }
                assert(first_named(rest, i - 1, name));
            }
            if json::lookup(rest, name) is Some {
                let i = choose|i: int| #[trigger]
                    first_named(rest, i, name) && json::lookup(rest, name) == Some(rest[i].value);
                assert forall|j: int| 0 <= j < i + 1 implies (#[trigger] fields[j]).name
                    != name by {
                    if j > 0 {
                        assert(rest[j - 1] == fields[j]);
                    }
                }
                assert(first_named(fields, i + 1, name));
            } else {
                assert forall|i: int| 0 <= i < fields.len() implies (#[trigger] fields[i]).name
                    != name by {
                    if i > 0 {
                        assert(rest[i - 1] == fields[i]);
                    }
                }
            }
            if forall|i: int| 0 <= i < fields.len() ==> (#[trigger] fields[i]).name != name {
                assert forall|i: int| 0 <= i < rest.len() implies (#[trigger] rest[i]).name
                    != name by {
                    assert(rest[i] == fields[i + 1]);
                }
            }
        }
    }
}

/// Whether `reply` has this status and the body `{"error": message}`.
pub open spec fn reports(reply: ReplyView, status: int, message: Seq<char>) -> bool {
    &&& reply.status == status
    &&& reply.body is Object
    &&& reply.body->Object_0.len() == 1
    &&& reply.body->Object_0[0].name == "error"@
    &&& reply.body->Object_0[0].value == JsonView::Text(message)
}

/// An error is reported with its status, and with its message as the one member
/// of the body.
pub proof fn errors_are_reported(status: u16, message: Seq<char>)
    ensures
        reports(server::error_reply(status, message), status as int, message),
{
}

/// A request whose body is an object with a text `model` becomes a job with that
/// model, and with the path and the body of the request.
pub proof fn request_with_a_model_becomes_a_job(
    path: Seq<char>,
    body: Seq<u8>,
    value: JsonView,
    model: Seq<char>,
)
    requires
        has_member(value, "model"@, JsonView::Text(model)),
    ensures
        ({
            let r = server::admission(path, body, Ok(value));
            &&& r is Ok
            &&& r->Ok_0.path == path
            &&& r->Ok_0.body == body
            &&& r->Ok_0.model == model
        }),
{
    members_are_found_by_name(value, "model"@);
}

/// Any other request is refused with status 400 and a message that says why.
pub proof fn request_without_a_model_is_refused(
    path: Seq<char>,
    body: Seq<u8>,
    document: Result<JsonView, Seq<char>>,
)
    requires
        document is Ok ==> forall|model: Seq<char>| !#[trigger]
            has_member(document->Ok_0, "model"@, JsonView::Text(model)),
    ensures
        ({
            let r = server::admission(path, body, document);
            &&& r is Err
            &&& document is Ok ==> reports(r->Err_0, 400, "missing 'model' field"@)
            &&& document is Err ==> reports(
                r->Err_0,
                400,
                "invalid JSON body: "@ + document->Err_0,
            )
        }),
{
    if document is Ok {
        members_are_found_by_name(document->Ok_0, "model"@);
        if let Some(JsonView::Text(model)) = json::member(document->Ok_0, "model"@) {
            assert(has_member(document->Ok_0, "model"@, JsonView::Text(model)));
        }
    }
}

/// The response begins as the first event of the job says: a status of three
/// digits as it is, any other as 502, with the content type as it is; a failure
/// as 502 with its message; and 502 when the job has nothing to say.
pub proof fn first_event_opens_the_response(
    status: u16,
    content_type: Seq<char>,
    message: Seq<char>,
    part: Seq<u8>,
)
    ensures
        ({
            let r = server::opening(Some(ProxyEventView::Respond { status, content_type }));
            &&& r is Stream
            &&& 100 <= status <= 999 ==> r->Stream_status == status
            &&& !(100 <= status <= 999) ==> r->Stream_status == 502
            &&& r->Stream_content_type == content_type
        }),
        ({
            let r = server::opening(Some(ProxyEventView::Failed(message)));
            r is Whole && reports(r->Whole_0, 502, message)
        }),
        ({
            let r = server::opening(Some(ProxyEventView::Chunk(part)));
            r is Whole && reports(r->Whole_0, 502, "proxy worker closed unexpectedly"@)
        }),
        ({
            let r = server::opening(None);
            r is Whole && reports(r->Whole_0, 502, "proxy worker closed unexpectedly"@)
        }),
{
}

/// Whether `value` is an object with exactly the text members `a`, `b` and `c`.
pub open spec fn has_texts(
    value: JsonView,
    a: (Seq<char>, Seq<char>),
    b: (Seq<char>, Seq<char>),
    c: (Seq<char>, Seq<char>),
) -> bool {
    &&& value is Object
    &&& value->Object_0.len() == 3
    &&& value->Object_0[0].name == a.0
    &&& value->Object_0[0].value == JsonView::Text(a.1)
    &&& value->Object_0[1].name == b.0
    &&& value->Object_0[1].value == JsonView::Text(b.1)
    &&& value->Object_0[2].name == c.0
    &&& value->Object_0[2].value == JsonView::Text(c.1)
}

/// The model list of the gateway is an object with the members `object` and
/// `data`. The first says `list`; the second has one entry for each model on
/// offer, with its id and its owner.
pub proof fn model_list_has_an_entry_for_each_model(config: Seq<BackendView>)
    ensures
        ({
            let r = server::models_json(config);
            let offered = catalog::offered_models(config);
            &&& r is Object
            &&& r->Object_0.len() == 2
            &&& r->Object_0[0].name == "object"@
            &&& r->Object_0[0].value == JsonView::Text("list"@)
            &&& r->Object_0[1].name == "data"@
            &&& r->Object_0[1].value is Array
            &&& r->Object_0[1].value->Array_0.len() == offered.len()
            &&& forall|i: int|
                0 <= i < offered.len() ==> has_texts(
                    #[trigger] r->Object_0[1].value->Array_0[i],
                    ("id"@, offered[i].id),
                    ("object"@, "model"@),
                    ("owned_by"@, offered[i].owned_by),
                )
        }),
{
}

/// Nothing is on offer without backends, nor from a backend without models.
pub proof fn models_come_from_backends(config: Seq<BackendView>, b: BackendView)
    requires
        b.models.len() == 0,
    ensures
        catalog::offered_models(Seq::empty()).len() == 0,
        catalog::offered_models(config.push(b)) == catalog::offered_models(config),
{
    assert(config.push(b).drop_last() =~= config);
    assert(catalog::entries_of(b) =~= Seq::empty());
    assert(catalog::all_entries(config.push(b)) =~= catalog::all_entries(config));
}

/// One more model of the last backend comes at the end of the models on offer,
/// under the name of that backend, unless it is on offer already.
pub proof fn one_more_model_is_offered_at_the_end(
    config: Seq<BackendView>,
    b: BackendView,
    before: Seq<Seq<char>>,
    model: Seq<char>,
)
    requires
        b.models == before.push(model),
    ensures
        ({
            let r = catalog::offered_models(config.push(BackendView { models: before, ..b }));
            let known = exists|i: int| 0 <= i < r.len() && (#[trigger] r[i]).id == model;
            &&& known ==> catalog::offered_models(config.push(b)) == r
            &&& !known ==> catalog::offered_models(config.push(b)) == r.push(
                EntryView { id: model, owned_by: b.name },
            )
        }),
{
    let shorter = BackendView { models: before, ..b };
    let old_entries = catalog::all_entries(config.push(shorter));
    let new_entries = catalog::all_entries(config.push(b));
    assert(config.push(b).drop_last() =~= config);
    assert(config.push(shorter).drop_last() =~= config);
    assert(new_entries =~= old_entries.push(EntryView { id: model, owned_by: b.name }));
    assert(new_entries.drop_last() =~= old_entries);
    let r = catalog::offered_models(config.push(shorter));
    assert(catalog::lists(r, model) <==> exists|i: int|
        0 <= i < r.len() && (#[trigger] r[i]).id == model);
}

/// A document without an array `data` lists no models, nor does an empty one.
pub proof fn ids_come_from_data(document: JsonView)
    ensures
        (forall|entries: Seq<JsonView>| !#[trigger]
            has_member(document, "data"@, JsonView::Array(entries))) ==> catalog::model_ids(
            document,
        ).len() == 0,
        has_member(document, "data"@, JsonView::Array(Seq::empty())) ==> catalog::model_ids(
            document,
        ).len() == 0,
{
    members_are_found_by_name(document, "data"@);
    if let Some(JsonView::Array(entries)) = json::member(document, "data"@) {
        assert(has_member(document, "data"@, JsonView::Array(entries)));
    }
}

/// One more entry adds its id at the end of the list, where it has a text `id`
/// that is not empty and not listed yet. Any other entry adds nothing.
pub proof fn one_more_entry_is_listed_at_the_end(
    shorter: JsonView,
    longer: JsonView,
    entries: Seq<JsonView>,
    entry: JsonView,
)
    requires
        has_member(shorter, "data"@, JsonView::Array(entries)),
        has_member(longer, "data"@, JsonView::Array(entries.push(entry))),
    ensures
        ({
            let old_ids = catalog::model_ids(shorter);
            let new_ids = catalog::model_ids(longer);
            &&& forall|id: Seq<char>| #[trigger]
                has_member(entry, "id"@, JsonView::Text(id)) && id.len() > 0
                    && !old_ids.contains(id) ==> new_ids == old_ids.push(id)
            &&& forall|id: Seq<char>| #[trigger]
                has_member(entry, "id"@, JsonView::Text(id)) && (id.len() == 0
                    || old_ids.contains(id)) ==> new_ids == old_ids
            &&& (forall|id: Seq<char>| !#[trigger]
                has_member(entry, "id"@, JsonView::Text(id))) ==> new_ids == old_ids
        }),
{
    members_are_found_by_name(shorter, "data"@);
    members_are_found_by_name(longer, "data"@);
    members_are_found_by_name(entry, "id"@);
    assert(entries.push(entry).drop_last() =~= entries);
    let ids = catalog::entry_ids(entries);
    if let Some(JsonView::Text(id)) = json::member(entry, "id"@) {
        assert(has_member(entry, "id"@, JsonView::Text(id)));
        if id.len() > 0 {
            assert(ids.push(id).drop_last() =~= ids);
            models::firsts_are_the_distinct_texts(ids);
        }
    }
}

/// A fetch begins below the base address, without the slashes at its end, at
/// `/v1/models`, with the key that it was given.
pub proof fn fetch_begins_at_the_first_address(base_url: Seq<char>, key: Seq<char>)
    ensures
        ({
            let v = fetch::fetch_started(base_url, key);
            &&& choice::stripped(base_url, v.base)
            &&& v.request() is Get
            &&& v.request()->Get_url == v.base + "/v1/models"@
            &&& v.request()->Get_key == key
            &&& v.phase == FetchPhase::Asking
            &&& !v.fallback
        }),
{
    choice::addresses_lose_their_slashes(base_url);
}

/// Whether a fetch goes on with `/models` below its base address.
pub open spec fn falls_back(v: FetchView, next: (FetchView, FetchActionView)) -> bool {
    &&& next.0.base == v.base
    &&& next.0.key == v.key
    &&& next.0.fallback
    &&& next.0.phase == FetchPhase::Asking
    &&& next.1 is Get
    &&& next.1->Get_url == v.base + "/models"@
    &&& next.1->Get_key == v.key
}

/// Whether a fetch is over for `reason`.
pub open spec fn gives_up(next: (FetchView, FetchActionView), reason: Seq<char>) -> bool {
    next.1 is Finish && next.1->Finish_0 is Err && next.1->Finish_0->Err_0 == reason
}

/// What an address that was asked leads to. A status from 200 to 299 has its
/// body read. Any other status, and no answer at all, leads from the first
/// address to the second one, and from there to the end with the reason: the
/// status after `HTTP`, or what was wrong.
pub proof fn answers_of_an_address(v: FetchView, status: u16, reason: Seq<char>)
    requires
        v.phase == FetchPhase::Asking,
        100 <= status <= 999,
    ensures
        ({
            let answered = v.after(FetchEventView::Status(status));
            let silent = v.after(FetchEventView::Failed(reason));
            &&& 200 <= status < 300 ==> {
                &&& answered.1 is ReadText
                &&& answered.0 == (FetchView { phase: FetchPhase::Reading, ..v })
            }
            &&& !(200 <= status < 300) && !v.fallback ==> falls_back(v, answered)
            &&& !(200 <= status < 300) && v.fallback ==> gives_up(
                answered,
                "HTTP "@ + http::status_text(status),
            )
            &&& !v.fallback ==> falls_back(v, silent)
            &&& v.fallback ==> gives_up(silent, reason)
        }),
{
}

/// What the body of a success leads to: the ids that it lists, or, where it is no
/// document, none. A body that cannot be read counts as no answer.
pub proof fn bodies_of_an_address(v: FetchView, body: Seq<char>, reason: Seq<char>)
    requires
        v.phase == FetchPhase::Reading,
    ensures
        ({
            let read = v.after(FetchEventView::Text(body));
            let unread = v.after(FetchEventView::Unreadable(reason));
            &&& read.1 is Finish
            &&& read.1->Finish_0 is Ok
            &&& json::json_of_text(body) is Ok ==> read.1->Finish_0->Ok_0 == catalog::model_ids(
                json::json_of_text(body)->Ok_0,
            )
            &&& json::json_of_text(body) is Err ==> read.1->Finish_0->Ok_0.len() == 0
            &&& !v.fallback ==> falls_back(v, unread)
            &&& v.fallback ==> gives_up(unread, reason)
        }),
{
}

} // verus!
