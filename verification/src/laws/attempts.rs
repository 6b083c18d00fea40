//! What an upstream answer leads to, told on the numbers and the texts of the
//! answer alone.

use crate::proxy;
use crate::proxy::{ActionView, EventView, PhaseView, RunView, UpstreamRequestView};
use crate::resolver::{ResolvedBackendView, ResolverView};
use crate::worker::{ProxyEventView, ProxyJobView};
use vstd::prelude::*;

verus! {

/// The statuses of a key that is spent.
pub open spec fn spent(status: u16) -> bool {
    status == 401 || status == 402 || status == 403 || status == 429
}

/// The statuses that are neither a success nor the fault of a key or a backend.
pub open spec fn own_fault(status: u16) -> bool {
    status < 500 && !spent(status) && !(200 <= status && status < 300)
}

/// Whether `request` carries `job` below the address `base` with `key`.
pub open spec fn carries(
    request: UpstreamRequestView,
    job: ProxyJobView,
    base: Seq<char>,
    key: Seq<char>,
) -> bool {
    &&& request.url == base + job.path
    &&& request.authorization == "Bearer "@ + key
    &&& request.content_type == "application/json"@
    &&& request.body == job.body
}

/// Whether the machine waits for the answer of the first key of the backend at
/// `group`, with the reasons `reasons` for those before it.
pub open spec fn tries_first_key(
    w: RunView,
    action: ActionView,
    job: ProxyJobView,
    groups: Seq<ResolvedBackendView>,
    group: int,
    reasons: Seq<Seq<char>>,
) -> bool {
    &&& w.job == job
    &&& w.groups == groups
    &&& w.group == group
    &&& w.key == 0
    &&& w.reasons == reasons
    &&& w.phase is Trying
    &&& action is Post
    &&& carries(action->Post_0, job, groups[group].base_url, groups[group].keys[0].key)
}

/// Whether `message` names the model and, in order and with semicolons between
/// them, the reasons.
pub open spec fn tells(message: Seq<char>, model: Seq<char>, reasons: Seq<Seq<char>>) -> bool {
    exists|list: Seq<char>|
        {
            &&& message == "all configured backends failed for model '"@ + model + "': "@ + list
            &&& #[trigger] semicolons(list, reasons)
        }
}

/// Whether `list` is made of `reasons`, in order, with semicolons and spaces
/// between them.
pub open spec fn semicolons(list: Seq<char>, reasons: Seq<Seq<char>>) -> bool
    decreases reasons.len(),
{
    if reasons.len() == 0 {
        list.len() == 0
    } else if reasons.len() == 1 {
        list == reasons[0]
    } else {
        let tail = "; "@ + reasons[reasons.len() - 1];
        let n = list.len() - tail.len();
        &&& 0 <= n
        &&& list.skip(n) == tail
        &&& semicolons(list.take(n), reasons.drop_last())
    }
}

proof fn joined_with_semicolons(reasons: Seq<Seq<char>>)
    ensures
        semicolons(crate::text::joined(reasons, "; "@), reasons),
    decreases reasons.len(),
{
    if reasons.len() > 1 {
        joined_with_semicolons(reasons.drop_last());
        let list = crate::text::joined(reasons, "; "@);
        let front = crate::text::joined(reasons.drop_last(), "; "@);
        let tail = "; "@ + reasons[reasons.len() - 1];
        assert(list =~= front + tail);
        assert(list.take(list.len() - tail.len()) =~= front);
        assert(list.skip(list.len() - tail.len()) =~= tail);
    }
}

/// What a machine says when no backend is left.
proof fn exhausted_machine_tells(v: RunView)
    requires
        v.group == v.groups.len(),
    ensures
        ({
            let (w, action) = v.settled();
            &&& w.phase is Closing
            &&& action is Send
            &&& action->Send_0 is Failed
            &&& tells(action->Send_0->Failed_0, v.job.model, v.reasons)
        }),
{
    joined_with_semicolons(v.reasons);
    let list = crate::text::joined(v.reasons, "; "@);
    assert(semicolons(list, v.reasons));
}

/// A job begins with the first key of the first backend. Without a backend it
/// fails at once, with a message that names the model.
pub proof fn job_begins_with_the_first_key(job: ProxyJobView, groups: Seq<ResolvedBackendView>)
    ensures
        ({
            let (w, action) = proxy::started(job, groups);
            &&& groups.len() > 0 && groups[0].keys.len() > 0 ==> tries_first_key(
                w,
                action,
                job,
                groups,
                0,
                Seq::empty(),
            )
            &&& groups.len() == 0 ==> {
                &&& action == ActionView::Send(
                    ProxyEventView::Failed(
                        "no backend available for model '"@ + job.model + "'"@,
                    ),
                )
                &&& w.phase is Closing
            }
            &&& groups.len() > 0 ==> (w, action) == (RunView {
                job,
                groups,
                group: 0,
                key: 0,
                reasons: Seq::empty(),
                phase: PhaseView::Closing,
            }).settled()
        }),
{
}

/// A spent key (401, 402, 403 or 429) hands over to the next key of the same
/// backend; after the last key, to the first key of the next backend; after the
/// last backend, to a failure that gives the reasons of all of them.
pub proof fn spent_keys_hand_over(v: RunView, status: u16, content_type: Option<Seq<u8>>)
    requires
        v.wf(),
        v.phase is Trying,
        spent(status),
    ensures
        ({
            let (w, action, mark) = v.after(EventView::Response { status, content_type });
            let g = v.groups[v.group];
            let reasons = v.reasons.push(g.backend_name + ": all keys exhausted"@);
            &&& v.key + 1 < g.keys.len() ==> {
                &&& w == (RunView { key: v.key + 1, ..v })
                &&& action is Post
                &&& carries(action->Post_0, v.job, g.base_url, g.keys[v.key + 1].key)
            }
            &&& v.key + 1 == g.keys.len() && v.group + 1 < v.groups.len() && v.groups[v.group
                + 1].keys.len() > 0 ==> tries_first_key(
                w,
                action,
                v.job,
                v.groups,
                v.group + 1,
                reasons,
            )
            &&& v.key + 1 == g.keys.len() && v.group + 1 == v.groups.len() ==> {
                &&& w.phase is Closing
                &&& action is Send
                &&& action->Send_0 is Failed
                &&& tells(action->Send_0->Failed_0, v.job.model, reasons)
            }
        }),
{
    reveal_with_fuel(RunView::settled, 2);
    let g = v.groups[v.group];
    if v.key + 1 == g.keys.len() {
        let next = RunView {
            group: v.group + 1,
            key: 0,
            reasons: v.reasons.push(g.backend_name + ": all keys exhausted"@),
            ..v
        };
        assert(v.after(EventView::Response { status, content_type }).1 == next.settled().1);
        if v.group + 1 == v.groups.len() {
            exhausted_machine_tells(next);
        }
    }
}

/// A backend that cannot be reached (no answer, or 500 and above) is left with
/// all its keys for the first key of the next backend; after the last backend,
/// for a failure that gives the reasons of all of them.
pub proof fn unreachable_backends_are_left(v: RunView, event: EventView)
    requires
        v.wf(),
        v.phase is Trying,
        event is TransportError || (event is Response && event->Response_status >= 500),
    ensures
        ({
            let (w, action, mark) = v.after(event);
            let reasons = v.reasons.push(v.groups[v.group].backend_name + ": unreachable"@);
            &&& v.group + 1 < v.groups.len() && v.groups[v.group + 1].keys.len() > 0
                ==> tries_first_key(w, action, v.job, v.groups, v.group + 1, reasons)
            &&& v.group + 1 == v.groups.len() ==> {
                &&& w.phase is Closing
                &&& action is Send
                &&& action->Send_0 is Failed
                &&& tells(action->Send_0->Failed_0, v.job.model, reasons)
            }
        }),
{
    if v.group + 1 == v.groups.len() {
        exhausted_machine_tells(
            RunView {
                group: v.group + 1,
                key: 0,
                reasons: v.reasons.push(v.groups[v.group].backend_name + ": unreachable"@),
                ..v
            },
        );
    }
}

/// A backend that was handed over without keys is passed by, as one of which all
/// keys are exhausted.
pub proof fn backends_without_keys_are_passed_by(v: RunView)
    requires
        0 <= v.group < v.groups.len(),
        v.key >= v.groups[v.group].keys.len(),
    ensures
        v.settled() == (RunView {
            group: v.group + 1,
            key: 0,
            reasons: v.reasons.push(v.groups[v.group].backend_name + ": all keys exhausted"@),
            ..v
        }).settled(),
{
}

/// Whether a byte may stand in a readable header value.
pub open spec fn readable(b: u8) -> bool {
    b == 9 || (b >= 32 && b <= 126)
}

/// A success (200 to 299) is answered with its own status. Its content type goes
/// to the client byte for byte, where it is readable throughout; otherwise, and
/// where there is none, the client is told `text/event-stream`.
pub proof fn success_keeps_status_and_type(
    v: RunView,
    status: u16,
    content_type: Option<Seq<u8>>,
)
    requires
        v.wf(),
        v.phase is Trying,
        200 <= status < 300,
    ensures
        ({
            let (w, action, mark) = v.after(EventView::Response { status, content_type });
            &&& w == (RunView { phase: PhaseView::Answering { body: None }, ..v })
            &&& action is Send
            &&& action->Send_0 is Respond
            &&& action->Send_0->Respond_status == status
            &&& match content_type {
                Some(bytes) => {
                    let told = action->Send_0->Respond_content_type;
                    let fine = forall|i: int| 0 <= i < bytes.len() ==> readable(#[trigger] bytes[i]);
                    &&& fine ==> {
                        &&& told.len() == bytes.len()
                        &&& forall|i: int|
                            0 <= i < bytes.len() ==> #[trigger] told[i] == bytes[i] as char
                    }
                    &&& !fine ==> told == "text/event-stream"@
                },
                None => action->Send_0->Respond_content_type == "text/event-stream"@,
            }
        }),
{
    if let Some(bytes) = content_type {
        if forall|i: int| 0 <= i < bytes.len() ==> readable(#[trigger] bytes[i]) {
            assert forall|i: int| 0 <= i < bytes.len() implies crate::http::visible(
                #[trigger] bytes[i],
            ) by {
                assert(readable(bytes[i]));
            }
        } else {
            let i = choose|i: int| 0 <= i < bytes.len() && !readable(#[trigger] bytes[i]);
            assert(!crate::http::visible(bytes[i]));
        }
    }
}

/// Any other answer is read whole, and then passed on with its status and its
/// bytes; after that the job is over.
pub proof fn other_answers_are_passed_on(
    v: RunView,
    status: u16,
    content_type: Option<Seq<u8>>,
    body: Seq<u8>,
)
    requires
        v.wf(),
        v.phase is Trying,
        own_fault(status),
    ensures
        ({
            let one = v.after(EventView::Response { status, content_type });
            let two = one.0.after(EventView::Body(body));
            let three = two.0.after(EventView::Delivered);
            let four = three.0.after(EventView::Delivered);
            &&& one.1 is ReadBody
            &&& two.1 == ActionView::Send(
                ProxyEventView::Respond { status, content_type: "application/json"@ },
            )
            &&& three.1 == ActionView::Send(ProxyEventView::Chunk(body))
            &&& four.1 is Stop
        }),
{
}

/// After the status of a success, each part of the body that arrives is sent on
/// as it is, and then the next one is asked for, until the body ends.
pub proof fn parts_are_sent_on(v: RunView, part: Seq<u8>)
    requires
        v.phase == (PhaseView::Answering { body: None }),
    ensures
        ({
            let one = v.after(EventView::Delivered);
            let two = one.0.after(EventView::Chunk(part));
            let three = two.0.after(EventView::Delivered);
            &&& one.1 is ReadChunk
            &&& two.1 == ActionView::Send(ProxyEventView::Chunk(part))
            &&& three.1 is ReadChunk
            &&& three.0 == one.0
            &&& one.0.after(EventView::StreamEnd).1 is Stop
            &&& one.0.after(EventView::StreamError).1 is Stop
        }),
{
}

/// A client that is gone ends the job, whatever it was to be sent.
pub proof fn client_that_leaves_ends_the_job(v: RunView)
    ensures
        v.after(EventView::Disconnected).1 is Stop,
        v.after(EventView::Disconnected).0.phase is Done,
{
}

/// What the answer for a key does to the health of its backend. A success
/// clears the key and the backend and makes the key the preferred one. A spent
/// key is set aside, and the next key, around the end of the list, is preferred.
/// A backend that cannot be reached is set aside. Any other answer, and anything
/// that happens later, changes nothing. Other backends are never affected.
pub proof fn health_follows_the_answer(
    v: RunView,
    r: ResolverView,
    event: EventView,
    now: u128,
)
    requires
        v.wf(),
        r.wf(),
        now + r.key_cooldown <= u128::MAX,
        now + r.backend_cooldown <= u128::MAX,
        v.phase is Trying ==> {
            let b = v.groups[v.group].backend_index;
            &&& 0 <= b < r.config.len()
            &&& 0 <= v.groups[v.group].keys[v.key].key_index < r.health[b].keys.len()
        },
    ensures
        ({
            let s = proxy::marked(r, v.after(event).2, now);
            let b = v.groups[v.group].backend_index;
            let k = v.groups[v.group].keys[v.key].key_index;
            let h = r.health[b];
            let n = h.keys.len() as int;
            let answered = v.phase is Trying && event is Response;
            let status = event->Response_status;
            &&& s.config == r.config
            &&& s.key_cooldown == r.key_cooldown
            &&& s.backend_cooldown == r.backend_cooldown
            &&& s.health.len() == r.health.len()
            &&& forall|i: int|
                0 <= i < r.health.len() && i != b ==> #[trigger] s.health[i] == r.health[i]
            &&& answered && 200 <= status < 300 ==> {
                &&& s.health[b].keys.len() == n
                &&& s.health[b].keys[k].key == h.keys[k].key
                &&& s.health[b].keys[k].exhausted_until is None
                &&& s.health[b].sticky == k
                &&& s.health[b].unreachable_until is None
                &&& forall|j: int|
                    0 <= j < n && j != k ==> #[trigger] s.health[b].keys[j] == h.keys[j]
            }
            &&& answered && spent(status) ==> {
                &&& s.health[b].keys.len() == n
                &&& s.health[b].keys[k].key == h.keys[k].key
                &&& s.health[b].keys[k].exhausted_until is Some
                &&& s.health[b].keys[k].exhausted_until->0 == now + r.key_cooldown
                &&& s.health[b].sticky == if k + 1 < n {
                    k + 1
                } else {
                    0
                }
                &&& s.health[b].unreachable_until == h.unreachable_until
                &&& forall|j: int|
                    0 <= j < n && j != k ==> #[trigger] s.health[b].keys[j] == h.keys[j]
            }
            &&& (v.phase is Trying && event is TransportError) || (answered && status >= 500)
                ==> {
                &&& s.health[b].keys == h.keys
                &&& s.health[b].sticky == h.sticky
                &&& s.health[b].unreachable_until is Some
                &&& s.health[b].unreachable_until->0 == now + r.backend_cooldown
            }
            &&& answered && own_fault(status) ==> s == r
            &&& !(v.phase is Trying) ==> s == r
        }),
{
    if v.phase is Trying {
        let b = v.groups[v.group].backend_index;
        let k = v.groups[v.group].keys[v.key].key_index;
        crate::laws::choice::exhaustion_is_recorded(r, b, k, now);
        crate::laws::choice::unreachability_is_recorded(r, b, now);
        crate::laws::choice::success_is_recorded(r, b, k);
        crate::resolver::marks_keep_wf(r, b, k, now);
        crate::laws::choice::preference_is_recorded(r.key_ok(b, k), b, k);
    }
}

} // verus!
