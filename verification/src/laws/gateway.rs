//! Laws of the gateway from the request to the response.

use crate::json;
use crate::json::JsonView;
use crate::laws::choice;
use crate::laws::failover;
use crate::laws::routing;
use crate::proxy;
use crate::proxy::{ActionView, EventView, RunView, UpstreamRequestView};
use crate::resolver;
use crate::resolver::{ResolvedBackendView, ResolverView};
use crate::server;
use crate::server::OpeningView;
use crate::text;
use crate::worker::{ProxyEventView, ProxyJobView};
use vstd::prelude::*;

verus! {

/// A request with a model becomes a job that carries its path and its body
/// unchanged. A request without one is refused with status 400.
pub proof fn request_is_forwarded_whole(path: Seq<char>, body: Seq<u8>, value: JsonView)
    ensures
        match json::text_member(value, "model"@) {
            Some(model) => server::admission(path, body, Ok(value)) == Ok::<_, server::ReplyView>(
                ProxyJobView { path, body, model },
            ),
            None => server::admission(path, body, Ok(value)) is Err && server::admission(
                path,
                body,
                Ok(value),
            )->Err_0.status == 400,
        },
{
}

/// Going on from a position keeps the job and its backends, and a request that
/// comes of it carries the job to the key at the new position.
proof fn settled_carries_the_job(v: RunView)
    requires
        0 <= v.group <= v.groups.len() <= usize::MAX,
        0 <= v.key,
        proxy::room(v.groups),
    ensures
        ({
            let (w, action) = v.settled();
            &&& w.wf()
            &&& w.job == v.job
            &&& w.groups == v.groups
            &&& action is Post ==> w.phase is Trying && action == ActionView::Post(
                proxy::forwarded(v.job, w.backend().base_url, w.backend().keys[w.key].key),
            )
        }),
    decreases v.groups.len() - v.group,
{
    if v.group < v.groups.len() && v.key >= v.groups[v.group].keys.len() {
        settled_carries_the_job(
            RunView {
                group: v.group + 1,
                key: 0,
                reasons: v.reasons.push(
                    proxy::exhausted_reason(v.groups[v.group].backend_name),
                ),
                ..v
            },
        );
    }
}

/// Every request that a job sends upstream carries the body of the job and the
/// key of its backend, and goes to the path of the job below the address of that
/// backend.
pub proof fn upstream_requests_carry_the_job(v: RunView, event: EventView)
    requires
        v.wf(),
    ensures
        ({
            let (w, action, mark) = v.after(event);
            &&& w.wf()
            &&& w.job == v.job
            &&& w.groups == v.groups
            &&& action is Post ==> {
                &&& w.phase is Trying
                &&& action->Post_0.url == w.groups[w.group].base_url + v.job.path
                &&& action->Post_0.authorization == "Bearer "@ + w.groups[w.group].keys[w.key].key
                &&& action->Post_0.content_type == "application/json"@
                &&& action->Post_0.body == v.job.body
            }
        }),
{
    if v.phase is Trying {
        settled_carries_the_job(RunView { key: v.key + 1, ..v });
        settled_carries_the_job(
            RunView {
                group: v.group + 1,
                key: 0,
                reasons: v.reasons.push(proxy::unreachable_reason(v.backend().backend_name)),
                ..v
            },
        );
    }
}

/// Whether `request` carries `job` to the backend at `i`, below its address
/// `base`, with the key `key`.
pub open spec fn goes_to(
    v: ResolverView,
    job: ProxyJobView,
    request: UpstreamRequestView,
    i: int,
    base: Seq<char>,
    key: Seq<char>,
) -> bool {
    &&& 0 <= i < v.config.len()
    &&& v.config[i].models.contains(job.model)
    &&& v.config[i].keys.contains(key)
    &&& resolver::usable_keys(v.config[i].keys).contains(key)
    &&& exists|k: int| 0 <= k < key.len() && !text::white(#[trigger] key[k])
    &&& choice::stripped(v.config[i].base_url, base)
    &&& request.url == base + job.path
    &&& request.authorization == "Bearer "@ + key
    &&& request.content_type == "application/json"@
    &&& request.body == job.body
}

/// How the state of a job goes with its last action.
proof fn job_is_carried(
    job: ProxyJobView,
    groups: Seq<ResolvedBackendView>,
    events: Seq<EventView>,
)
    requires
        groups.len() <= usize::MAX,
        proxy::room(groups),
    ensures
        ({
            let w = failover::state_after(proxy::started(job, groups).0, events);
            let action = failover::asked(job, groups, events);
            &&& w.wf()
            &&& w.job == job
            &&& w.groups == groups
            &&& action is Post ==> {
                &&& w.phase is Trying
                &&& action->Post_0.url == w.groups[w.group].base_url + job.path
                &&& action->Post_0.authorization == "Bearer "@ + w.groups[w.group].keys[w.key].key
                &&& action->Post_0.content_type == "application/json"@
                &&& action->Post_0.body == job.body
            }
        }),
    decreases events.len(),
{
    let v = proxy::started(job, groups).0;
    if events.len() == 0 {
        settled_carries_the_job(proxy::unstarted(job, groups));
    } else {
        job_is_carried(job, groups, events.drop_last());
        upstream_requests_carry_the_job(
            failover::state_after(v, events.drop_last()),
            events.last(),
        );
    }
}

/// Every request that a job sends upstream, from its start on, goes to a backend
/// that serves the model of the job, with a key of that backend, and carries the
/// path and the body of the job.
pub proof fn requests_go_to_backends_that_serve_the_model(
    v: ResolverView,
    job: ProxyJobView,
    now: u128,
    events: Seq<EventView>,
)
    requires
        v.wf(),
        v.config.len() <= usize::MAX,
        failover::asked(job, v.resolved(job.model, now), events) is Post,
    ensures
        exists|i: int, base: Seq<char>, key: Seq<char>| #[trigger]
            goes_to(
                v,
                job,
                failover::asked(job, v.resolved(job.model, now), events)->Post_0,
                i,
                base,
                key,
            ),
{
    let groups = v.resolved(job.model, now);
    routing::resolved_is_what_is_offered(v, job.model, now);
    assert forall|i: int, j: int| 0 <= i < groups.len() && 0 <= j < groups[i].keys.len() implies 0
        <= groups[i].backend_index <= usize::MAX && 0 <= (
    #[trigger] groups[i].keys[j]).key_index < usize::MAX by {
        routing::resolved_comes_from_the_configuration(v, job.model, now, i);
    }
    job_is_carried(job, groups, events);
    let w = failover::state_after(proxy::started(job, groups).0, events);
    routing::resolved_comes_from_the_configuration(v, job.model, now, w.group);
    let g = groups[w.group];
    choice::backends_are_handed_out_in_order(v, job.model, now, w.group);
    let key = g.keys[w.key].key;
    assert(v.config[g.backend_index].keys.contains(key) && !text::blank(key));
    choice::blank_texts_are_white(key);
    assert(goes_to(
        v,
        job,
        failover::asked(job, groups, events)->Post_0,
        g.backend_index,
        g.base_url,
        g.keys[w.key].key,
    ));
}

/// A job that fails is answered with status 502 and a message that gives one
/// reason for each backend.
pub proof fn failure_is_answered_with_502(
    job: ProxyJobView,
    groups: Seq<ResolvedBackendView>,
    events: Seq<EventView>,
)
    requires
        failover::sent(job, groups, events).len() > 0,
        failover::sent(job, groups, events)[0] is Failed,
    ensures
        ({
            let message = failover::sent(job, groups, events)[0]->Failed_0;
            &&& failover::failure_of(job, groups, message)
            &&& server::opening(Some(failover::sent(job, groups, events)[0]))
                == OpeningView::Whole(server::error_reply(502, message))
        }),
{
    failover::client_sees_one_answer_or_one_failure(job, groups, events);
}

/// A request for a model that no backend serves fails at once, without any
/// request upstream.
pub proof fn unserved_model_fails_at_once(v: ResolverView, job: ProxyJobView, now: u128)
    requires
        forall|i: int| 0 <= i < v.config.len() ==> !#[trigger] v.serves(i, job.model),
    ensures
        proxy::started(job, v.resolved(job.model, now)).1 == ActionView::Send(
            ProxyEventView::Failed(proxy::nothing_to_try(job.model)),
        ),
{
    routing::unserved_model_has_no_backend(v, job.model, now);
}

/// The client gets the status of the upstream answer, where it is a status at
/// all.
pub proof fn upstream_status_reaches_the_client(status: u16, content_type: Seq<char>)
    requires
        crate::http::status_exists(status),
    ensures
        server::opening(Some(ProxyEventView::Respond { status, content_type }))
            == (OpeningView::Stream { status, content_type }),
{
}

} // verus!
