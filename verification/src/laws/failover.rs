//! Laws of the failover of a proxy job.

use crate::proxy;
use crate::proxy::{ActionView, Class, EventView, Mark, PhaseView, RunView};
use crate::resolver::ResolvedBackendView;
use crate::worker::{ProxyEventView, ProxyJobView};
use vstd::prelude::*;

verus! {

/// Whether `reason` is one that the backend `g` can fail for.
pub open spec fn reason_of(g: ResolvedBackendView, reason: Seq<char>) -> bool {
    reason == proxy::exhausted_reason(g.backend_name) || reason == proxy::unreachable_reason(
        g.backend_name,
    )
}

/// Each backend before the current one has failed, for one reason.
pub open spec fn reasons_kept(v: RunView) -> bool {
    &&& v.reasons.len() == v.group <= v.groups.len()
    &&& forall|i: int| 0 <= i < v.group ==> reason_of(v.groups[i], #[trigger] v.reasons[i])
}

/// Whether the position of `w` comes after that of `v`.
pub open spec fn advanced(v: RunView, w: RunView) -> bool {
    w.group > v.group || (w.group == v.group && w.key > v.key)
}

/// Going on leads either to a key that exists, no earlier than the position that
/// it started from, or past the last backend to the failure.
proof fn settled_outcome(v: RunView)
    requires
        0 <= v.group <= v.groups.len(),
        0 <= v.key,
        reasons_kept(v),
    ensures
        ({
            let (w, action) = v.settled();
            &&& w.job == v.job
            &&& w.groups == v.groups
            &&& reasons_kept(w)
            &&& w == v || advanced(v, w) || !(w.phase is Trying) || (w.group == v.group && w.key
                == v.key)
            &&& (w.phase is Trying && action is Post && w.group < w.groups.len() && 0 <= w.key
                < w.groups[w.group].keys.len()) || (w.phase is Closing && w.group == w.groups.len()
                && action == ActionView::Send(
                ProxyEventView::Failed(proxy::all_failed(w.job.model, w.reasons)),
            ))
        }),
    decreases v.groups.len() - v.group,
{
    if v.group < v.groups.len() && v.key >= v.groups[v.group].keys.len() {
        let next = RunView {
            group: v.group + 1,
            key: 0,
            reasons: v.reasons.push(proxy::exhausted_reason(v.groups[v.group].backend_name)),
            ..v
        };
        settled_outcome(next);
    }
}

/// A key that is spent hands over to the next key of the same backend, and is
/// recorded as exhausted.
pub proof fn spent_key_hands_over_to_the_next(
    v: RunView,
    status: u16,
    content_type: Option<Seq<u8>>,
)
    requires
        v.wf(),
        v.phase is Trying,
        proxy::class_of(status) == Class::KeyExhausted,
        v.key + 1 < v.backend().keys.len(),
    ensures
        v.after(EventView::Response { status, content_type }) == (
            RunView { key: v.key + 1, ..v },
            ActionView::Post(
                proxy::forwarded(
                    v.job,
                    v.backend().base_url,
                    v.backend().keys[v.key + 1].key,
                ),
            ),
            Mark::Exhausted {
                backend: v.backend().backend_index,
                key: v.backend().keys[v.key].key_index,
            },
        ),
{
}

/// When the last key of a backend is spent, the first key of the next backend is
/// tried.
pub proof fn last_spent_key_hands_over_to_the_next_backend(
    v: RunView,
    status: u16,
    content_type: Option<Seq<u8>>,
)
    requires
        v.wf(),
        v.phase is Trying,
        proxy::class_of(status) == Class::KeyExhausted,
        v.key + 1 == v.backend().keys.len(),
        v.group + 1 < v.groups.len(),
        v.groups[v.group + 1].keys.len() > 0,
    ensures
        ({
            let next = v.groups[v.group + 1];
            v.after(EventView::Response { status, content_type }) == (
                RunView {
                    group: v.group + 1,
                    key: 0,
                    reasons: v.reasons.push(proxy::exhausted_reason(v.backend().backend_name)),
                    ..v
                },
                ActionView::Post(proxy::forwarded(v.job, next.base_url, next.keys[0].key)),
                Mark::Exhausted {
                    backend: v.backend().backend_index,
                    key: v.backend().keys[v.key].key_index,
                },
            )
        }),
{
    reveal_with_fuel(RunView::settled, 2);
}

/// Whether the event says that the backend cannot be reached.
pub open spec fn says_unreachable(event: EventView) -> bool {
    event == EventView::TransportError || (event is Response && event->Response_status >= 500)
}

/// A backend that cannot be reached is left at once, with all the keys that it
/// still had, for the first key of the next backend.
pub proof fn unreachable_backend_is_skipped(v: RunView, event: EventView)
    requires
        v.wf(),
        v.phase is Trying,
        says_unreachable(event),
        v.group + 1 < v.groups.len(),
        v.groups[v.group + 1].keys.len() > 0,
    ensures
        ({
            let next = v.groups[v.group + 1];
            v.after(event) == (
                RunView {
                    group: v.group + 1,
                    key: 0,
                    reasons: v.reasons.push(proxy::unreachable_reason(v.backend().backend_name)),
                    ..v
                },
                ActionView::Post(proxy::forwarded(v.job, next.base_url, next.keys[0].key)),
                Mark::Unreachable { backend: v.backend().backend_index },
            )
        }),
{
}

/// An answer that is neither a success nor a matter of the key or the backend
/// goes back to the client as it came, status and body, and nothing more is
/// tried or recorded.
pub proof fn client_error_is_passed_on(
    v: RunView,
    status: u16,
    content_type: Option<Seq<u8>>,
    body: Seq<u8>,
)
    requires
        v.wf(),
        v.phase is Trying,
        proxy::class_of(status) == Class::ClientError,
    ensures
        ({
            let one = v.after(EventView::Response { status, content_type });
            let two = one.0.after(EventView::Body(body));
            let three = two.0.after(EventView::Delivered);
            let four = three.0.after(EventView::Delivered);
            &&& one.1 == ActionView::ReadBody
            &&& two.1 == ActionView::Send(
                ProxyEventView::Respond { status, content_type: "application/json"@ },
            )
            &&& three.1 == ActionView::Send(ProxyEventView::Chunk(body))
            &&& four.1 == ActionView::Stop
            &&& one.2 == Mark::Nothing
            &&& two.2 == Mark::Nothing
            &&& three.2 == Mark::Nothing
            &&& four.2 == Mark::Nothing
        }),
{
}

/// A success is answered with its own status, and every part of its body is then
/// passed on unchanged, in the order in which it arrives.
pub proof fn success_is_streamed(
    v: RunView,
    status: u16,
    content_type: Option<Seq<u8>>,
    part: Seq<u8>,
)
    requires
        v.wf(),
        v.phase is Trying,
        proxy::class_of(status) == Class::Success,
    ensures
        ({
            let one = v.after(EventView::Response { status, content_type });
            let two = one.0.after(EventView::Delivered);
            let three = two.0.after(EventView::Chunk(part));
            let four = three.0.after(EventView::Delivered);
            &&& one.1 == ActionView::Send(
                ProxyEventView::Respond {
                    status,
                    content_type: proxy::reported_type(content_type),
                },
            )
            &&& one.2 == Mark::Healthy {
                backend: v.backend().backend_index,
                key: v.backend().keys[v.key].key_index,
            }
            &&& two.1 == ActionView::ReadChunk
            &&& three.1 == ActionView::Send(ProxyEventView::Chunk(part))
            &&& four.0 == two.0
            &&& four.1 == ActionView::ReadChunk
        }),
{
}

/// Whether the client has been sent a status or a failure.
pub open spec fn committed(v: RunView) -> bool {
    !(v.phase is Trying || v.phase is ReadingError)
}

/// Once the client has been sent a status or a failure, no request goes upstream
/// any more and nothing more is recorded.
pub proof fn no_retry_after_commitment(v: RunView, event: EventView)
    requires
        committed(v),
    ensures
        committed(v.after(event).0),
        !(v.after(event).1 is Post),
        v.after(event).2 == Mark::Nothing,
{
}

/// The state of a job after it has taken in `events`.
pub open spec fn state_after(v: RunView, events: Seq<EventView>) -> RunView
    decreases events.len(),
{
    if events.len() == 0 {
        v
    } else {
        state_after(v, events.drop_last()).after(events.last()).0
    }
}

/// The event that an action sends to the client, if any.
pub open spec fn sent_by(action: ActionView) -> Seq<ProxyEventView> {
    match action {
        ActionView::Send(event) => seq![event],
        _ => Seq::empty(),
    }
}

/// What a job asks for after it has taken in `events`.
pub open spec fn asked(
    job: ProxyJobView,
    groups: Seq<ResolvedBackendView>,
    events: Seq<EventView>,
) -> ActionView {
    let (v, action) = proxy::started(job, groups);
    if events.len() == 0 {
        action
    } else {
        state_after(v, events.drop_last()).after(events.last()).1
    }
}

/// What a job sends to the client while it takes in `events`.
pub open spec fn sent_after(v: RunView, events: Seq<EventView>) -> Seq<ProxyEventView>
    decreases events.len(),
{
    if events.len() == 0 {
        Seq::empty()
    } else {
        sent_after(v, events.drop_last()) + sent_by(
            state_after(v, events.drop_last()).after(events.last()).1,
        )
    }
}

/// What a job takes in when a response arrives, the client takes its status, and
/// then `parts` arrive one by one, each taken by the client.
pub open spec fn streaming(
    status: u16,
    content_type: Option<Seq<u8>>,
    parts: Seq<Seq<u8>>,
) -> Seq<EventView>
    decreases parts.len(),
{
    if parts.len() == 0 {
        seq![EventView::Response { status, content_type }, EventView::Delivered]
    } else {
        streaming(status, content_type, parts.drop_last()).push(
            EventView::Chunk(parts.last()),
        ).push(EventView::Delivered)
    }
}

/// The client of a success is sent its status and then the parts of its body,
/// all of them, unchanged and in order.
pub proof fn body_is_passed_on_whole(
    v: RunView,
    status: u16,
    content_type: Option<Seq<u8>>,
    parts: Seq<Seq<u8>>,
)
    requires
        v.wf(),
        v.phase is Trying,
        proxy::class_of(status) == Class::Success,
    ensures
        state_after(v, streaming(status, content_type, parts)) == (RunView {
            phase: PhaseView::Streaming,
            ..v
        }),
        sent_after(v, streaming(status, content_type, parts)) == seq![
            ProxyEventView::Respond {
                status,
                content_type: proxy::reported_type(content_type),
            },
        ] + parts.map_values(|part: Seq<u8>| ProxyEventView::Chunk(part)),
    decreases parts.len(),
{
    let events = streaming(status, content_type, parts);
    let first = events.drop_last();
    let before = first.drop_last();
    let head = seq![
        ProxyEventView::Respond { status, content_type: proxy::reported_type(content_type) },
    ];
    let chunk = |part: Seq<u8>| ProxyEventView::Chunk(part);
    if parts.len() == 0 {
        assert(before =~= Seq::empty());
        assert(first =~= seq![EventView::Response { status, content_type }]);
        assert(state_after(v, before) == v);
        assert(sent_after(v, before) =~= Seq::empty());
        assert(sent_after(v, first) =~= head);
        assert(sent_after(v, events) =~= head + parts.map_values(chunk));
    } else {
        let rest = parts.drop_last();
        let prior = streaming(status, content_type, rest);
        body_is_passed_on_whole(v, status, content_type, rest);
        assert(first =~= prior.push(EventView::Chunk(parts.last())));
        assert(before =~= prior);
        let forwarding = RunView { phase: PhaseView::Forwarding, ..v };
        assert(state_after(v, first) == forwarding);
        assert(sent_after(v, first) == sent_after(v, prior).push(
            ProxyEventView::Chunk(parts.last()),
        ));
        assert(sent_after(v, events) =~= sent_after(v, first));
        assert(head + parts.map_values(chunk) =~= (head + rest.map_values(chunk)).push(
            ProxyEventView::Chunk(parts.last()),
        ));
    }
}

/// All that a job sends to the client, from its start on.
pub open spec fn sent(
    job: ProxyJobView,
    groups: Seq<ResolvedBackendView>,
    events: Seq<EventView>,
) -> Seq<ProxyEventView> {
    let (v, action) = proxy::started(job, groups);
    sent_by(action) + sent_after(v, events)
}

/// One status and then parts of a body.
pub open spec fn is_answer(s: Seq<ProxyEventView>) -> bool {
    &&& s.len() > 0
    &&& s[0] is Respond
    &&& forall|i: int| 1 <= i < s.len() ==> #[trigger] s[i] is Chunk
}

/// The message that a job with these backends can fail with: one reason for
/// each backend, in order.
pub open spec fn failure_of(
    job: ProxyJobView,
    groups: Seq<ResolvedBackendView>,
    message: Seq<char>,
) -> bool {
    if groups.len() == 0 {
        message == proxy::nothing_to_try(job.model)
    } else {
        exists|reasons: Seq<Seq<char>>|
            {
                &&& #[trigger] proxy::all_failed(job.model, reasons) == message
                &&& reasons.len() == groups.len()
                &&& forall|i: int|
                    0 <= i < groups.len() ==> reason_of(groups[i], #[trigger] reasons[i])
            }
    }
}

/// A single failure.
pub open spec fn is_failure(
    job: ProxyJobView,
    groups: Seq<ResolvedBackendView>,
    s: Seq<ProxyEventView>,
) -> bool {
    s.len() == 1 && s[0] is Failed && failure_of(job, groups, s[0]->Failed_0)
}

/// How the state of a job goes with what it has sent.
spec fn consistent(
    job: ProxyJobView,
    groups: Seq<ResolvedBackendView>,
    v: RunView,
    s: Seq<ProxyEventView>,
) -> bool {
    &&& v.job == job
    &&& v.groups == groups
    &&& match v.phase {
        PhaseView::Trying => {
            &&& s.len() == 0
            &&& 0 <= v.group < v.groups.len()
            &&& 0 <= v.key
            &&& reasons_kept(v)
        },
        PhaseView::ReadingError { .. } => s.len() == 0,
        PhaseView::Answering { .. } => is_answer(s),
        PhaseView::Streaming => is_answer(s),
        PhaseView::Forwarding => is_answer(s),
        PhaseView::Closing => is_answer(s) || is_failure(job, groups, s),
        PhaseView::Done => s.len() == 0 || is_answer(s) || is_failure(job, groups, s),
    }
}

proof fn start_is_consistent(job: ProxyJobView, groups: Seq<ResolvedBackendView>)
    ensures
        consistent(
            job,
            groups,
            proxy::started(job, groups).0,
            sent_by(proxy::started(job, groups).1),
        ),
{
    if groups.len() > 0 {
        let v = proxy::unstarted(job, groups);
        settled_outcome(v);
        let (w, action) = v.settled();
        if w.phase is Closing {
            assert(proxy::all_failed(job.model, w.reasons) == sent_by(action)[0]->Failed_0);
        }
    }
}

proof fn step_is_consistent(
    job: ProxyJobView,
    groups: Seq<ResolvedBackendView>,
    v: RunView,
    s: Seq<ProxyEventView>,
    event: EventView,
)
    requires
        consistent(job, groups, v, s),
    ensures
        consistent(job, groups, v.after(event).0, s + sent_by(v.after(event).1)),
{
    let (w, action, mark) = v.after(event);
    if v.phase is Trying {
        let spent = RunView { key: v.key + 1, ..v };
        settled_outcome(spent);
        let left = RunView {
            group: v.group + 1,
            key: 0,
            reasons: v.reasons.push(proxy::unreachable_reason(v.backend().backend_name)),
            ..v
        };
        settled_outcome(left);
        if w.phase is Closing {
            assert(s + sent_by(action) =~= sent_by(action));
            assert(proxy::all_failed(job.model, w.reasons) == sent_by(action)[0]->Failed_0);
        }
    }
    if action is Send {
        assert((s + sent_by(action)).len() == s.len() + 1);
        assert((s + sent_by(action)).last() == action->Send_0);
    } else {
        assert(s + sent_by(action) =~= s);
    }
}

proof fn run_is_consistent(
    job: ProxyJobView,
    groups: Seq<ResolvedBackendView>,
    events: Seq<EventView>,
)
    ensures
        consistent(
            job,
            groups,
            state_after(proxy::started(job, groups).0, events),
            sent(job, groups, events),
        ),
    decreases events.len(),
{
    let (v, action) = proxy::started(job, groups);
    if events.len() == 0 {
        start_is_consistent(job, groups);
        assert(sent(job, groups, events) =~= sent_by(action));
    } else {
        let before = events.drop_last();
        run_is_consistent(job, groups, before);
        step_is_consistent(
            job,
            groups,
            state_after(v, before),
            sent(job, groups, before),
            events.last(),
        );
        assert(sent(job, groups, events) =~= sent(job, groups, before) + sent_by(
            state_after(v, before).after(events.last()).1,
        ));
    }
}

/// Whatever happens to a job, the client is sent nothing, or one status followed
/// by parts of a body, or one failure. A failure gives one reason for each
/// backend that was to be tried, in order.
pub proof fn client_sees_one_answer_or_one_failure(
    job: ProxyJobView,
    groups: Seq<ResolvedBackendView>,
    events: Seq<EventView>,
)
    ensures
        ({
            let s = sent(job, groups, events);
            s.len() == 0 || is_answer(s) || is_failure(job, groups, s)
        }),
{
    run_is_consistent(job, groups, events);
}

/// The positions, as pairs of backend and key, of the requests that a job sends
/// upstream while it takes in `events`.
pub open spec fn tried_after(v: RunView, events: Seq<EventView>) -> Seq<(int, int)>
    decreases events.len(),
{
    if events.len() == 0 {
        Seq::empty()
    } else {
        let before = tried_after(v, events.drop_last());
        let (w, action, mark) = state_after(v, events.drop_last()).after(events.last());
        if action is Post {
            before.push((w.group, w.key))
        } else {
            before
        }
    }
}

/// The positions of all requests that a job sends upstream, from its start on.
pub open spec fn tried(
    job: ProxyJobView,
    groups: Seq<ResolvedBackendView>,
    events: Seq<EventView>,
) -> Seq<(int, int)> {
    let (v, action) = proxy::started(job, groups);
    let first = if action is Post {
        seq![(v.group, v.key)]
    } else {
        Seq::empty()
    };
    first + tried_after(v, events)
}

/// Whether the position `a` comes before `b`.
pub open spec fn earlier(a: (int, int), b: (int, int)) -> bool {
    a.0 < b.0 || (a.0 == b.0 && a.1 < b.1)
}

/// The positions come one after another, all of them up to that of `v`.
spec fn in_order(s: Seq<(int, int)>, v: RunView) -> bool {
    &&& forall|i: int, j: int|
        0 <= i < j < s.len() ==> earlier(#[trigger] s[i], #[trigger] s[j])
    &&& forall|i: int|
        0 <= i < s.len() ==> {
            &&& 0 <= (#[trigger] s[i]).0 < v.groups.len()
            &&& 0 <= s[i].1 < v.groups[s[i].0].keys.len()
        }
    &&& v.phase is Trying ==> s.len() > 0 && s.last() == (v.group, v.key)
}

proof fn run_is_in_order(
    job: ProxyJobView,
    groups: Seq<ResolvedBackendView>,
    events: Seq<EventView>,
)
    ensures
        in_order(tried(job, groups, events), state_after(proxy::started(job, groups).0, events)),
    decreases events.len(),
{
    let (v, action) = proxy::started(job, groups);
    if events.len() == 0 {
        if groups.len() > 0 {
            settled_outcome(proxy::unstarted(job, groups));
        }
        assert(tried_after(v, events) =~= Seq::empty());
    } else {
        let before = events.drop_last();
        run_is_in_order(job, groups, before);
        run_is_consistent(job, groups, before);
        run_is_consistent(job, groups, events);
        let u = state_after(v, before);
        let (w, act, mark) = u.after(events.last());
        let s = tried(job, groups, before);
        if u.phase is Trying {
            settled_outcome(RunView { key: u.key + 1, ..u });
            settled_outcome(
                RunView {
                    group: u.group + 1,
                    key: 0,
                    reasons: u.reasons.push(
                        proxy::unreachable_reason(u.backend().backend_name),
                    ),
                    ..u
                },
            );
            if act is Post {
                assert(advanced(u, w));
                assert(tried(job, groups, events) =~= s.push((w.group, w.key)));
                assert forall|i: int| 0 <= i < s.len() implies earlier(
                    #[trigger] s[i],
                    (w.group, w.key),
                ) by {
                    if i < s.len() - 1 {
                        assert(earlier(s[i], s[s.len() - 1]));
                    }
                }
            } else {
                assert(tried(job, groups, events) =~= s);
            }
        } else {
            assert(tried(job, groups, events) =~= s);
        }
    }
}

/// A job goes through the backends in order, and through the keys of each in
/// order. It never tries the same key of the same backend twice.
pub proof fn each_key_is_tried_at_most_once(
    job: ProxyJobView,
    groups: Seq<ResolvedBackendView>,
    events: Seq<EventView>,
)
    ensures
        ({
            let s = tried(job, groups, events);
            &&& forall|i: int, j: int|
                0 <= i < j < s.len() ==> earlier(#[trigger] s[i], #[trigger] s[j])
            &&& forall|i: int|
                0 <= i < s.len() ==> {
                    &&& 0 <= (#[trigger] s[i]).0 < groups.len()
                    &&& 0 <= s[i].1 < groups[s[i].0].keys.len()
                }
        }),
{
    run_is_in_order(job, groups, events);
    run_is_consistent(job, groups, events);
}

/// Whether an event answers an action, for a client that stays.
pub open spec fn answers(action: ActionView, event: EventView) -> bool {
    match action {
        ActionView::Post(_) => event is TransportError || event is Response,
        ActionView::ReadBody => event is Body,
        ActionView::Send(_) => event is Delivered,
        ActionView::ReadChunk => event is Chunk || event is StreamError || event is StreamEnd,
        ActionView::Stop => false,
    }
}

/// Whether each of `events` answers what the job asked for last, for a client
/// that stays.
pub open spec fn orderly(
    job: ProxyJobView,
    groups: Seq<ResolvedBackendView>,
    events: Seq<EventView>,
) -> bool
    decreases events.len(),
{
    events.len() > 0 ==> {
        &&& orderly(job, groups, events.drop_last())
        &&& answers(asked(job, groups, events.drop_last()), events.last())
    }
}

/// Whether an event, where it is the outcome of an upstream request, blames the
/// key or the backend.
pub open spec fn blames(event: EventView) -> bool {
    match event {
        EventView::Response { status, .. } => status >= 500 || status == 401 || status == 402
            || status == 403 || status == 429,
        _ => true,
    }
}

/// Whether every upstream request failed for a reason that lies with its key or
/// its backend.
pub open spec fn all_blamed(events: Seq<EventView>) -> bool {
    forall|i: int| 0 <= i < events.len() ==> blames(#[trigger] events[i])
}

/// How the state of a job goes with its last action, with what it has sent and
/// with what it has taken in.
spec fn on_course(
    job: ProxyJobView,
    groups: Seq<ResolvedBackendView>,
    events: Seq<EventView>,
) -> bool {
    let v = state_after(proxy::started(job, groups).0, events);
    let action = asked(job, groups, events);
    let s = sent(job, groups, events);
    let answered = is_answer(s) && !all_blamed(events);
    let failed = is_failure(job, groups, s) && all_blamed(events);
    match v.phase {
        PhaseView::Trying => action is Post && s.len() == 0 && all_blamed(events),
        PhaseView::ReadingError { .. } => action is ReadBody && s.len() == 0 && !all_blamed(
            events,
        ),
        PhaseView::Answering { .. } => action is Send && answered,
        PhaseView::Streaming => action is ReadChunk && answered,
        PhaseView::Forwarding => action is Send && answered,
        PhaseView::Closing => action is Send && (answered || failed),
        PhaseView::Done => action is Stop && (answered || failed),
    }
}

/// One more event adds its own blame to what was blamed before.
proof fn blame_adds_up(events: Seq<EventView>)
    requires
        events.len() > 0,
    ensures
        all_blamed(events) <==> all_blamed(events.drop_last()) && blames(events.last()),
{
    let before = events.drop_last();
    if all_blamed(events) {
        assert forall|i: int| 0 <= i < before.len() implies blames(#[trigger] before[i]) by {
            assert(blames(events[i]));
        }
        assert(blames(events[events.len() - 1]));
    }
    if all_blamed(before) && blames(events.last()) {
        assert forall|i: int| 0 <= i < events.len() implies blames(#[trigger] events[i]) by {
            if i < before.len() {
                assert(blames(before[i]));
            }
        }
    }
}

proof fn orderly_run_is_on_course(
    job: ProxyJobView,
    groups: Seq<ResolvedBackendView>,
    events: Seq<EventView>,
)
    requires
        orderly(job, groups, events),
    ensures
        on_course(job, groups, events),
    decreases events.len(),
{
    run_is_consistent(job, groups, events);
    let (v, action) = proxy::started(job, groups);
    if events.len() == 0 {
        assert(sent_after(v, events) =~= Seq::empty());
        assert(sent(job, groups, events) =~= sent_by(action));
        if groups.len() > 0 {
            settled_outcome(proxy::unstarted(job, groups));
        }
    } else {
        let before = events.drop_last();
        orderly_run_is_on_course(job, groups, before);
        run_is_consistent(job, groups, before);
        blame_adds_up(events);
        let u = state_after(v, before);
        let event = events.last();
        let (w, act, mark) = u.after(event);
        let s = sent(job, groups, before);
        assert(sent(job, groups, events) =~= s + sent_by(act));
        if u.phase is Trying {
            settled_outcome(RunView { key: u.key + 1, ..u });
            settled_outcome(
                RunView {
                    group: u.group + 1,
                    key: 0,
                    reasons: u.reasons.push(
                        proxy::unreachable_reason(u.backend().backend_name),
                    ),
                    ..u
                },
            );
            if act is Send {
                assert(sent(job, groups, events)[0] == act->Send_0);
            }
        } else if act is Send && s.len() > 0 {
            assert(sent(job, groups, events)[0] == s[0]);
        }
    }
}

/// A job that is over, and whose client stayed, has sent one answer or one
/// failure. It has sent the failure exactly when no request was answered except
/// with 500 or above, or with 401, 402, 403 or 429.
pub proof fn job_that_is_over_has_answered(
    job: ProxyJobView,
    groups: Seq<ResolvedBackendView>,
    events: Seq<EventView>,
)
    requires
        orderly(job, groups, events),
        state_after(proxy::started(job, groups).0, events).phase is Done,
    ensures
        ({
            let s = sent(job, groups, events);
            &&& is_answer(s) || is_failure(job, groups, s)
            &&& is_failure(job, groups, s) <==> all_blamed(events)
        }),
{
    orderly_run_is_on_course(job, groups, events);
}

/// A job whose client stays is over exactly when it asks for nothing more.
pub proof fn job_is_over_when_it_stops(
    job: ProxyJobView,
    groups: Seq<ResolvedBackendView>,
    events: Seq<EventView>,
)
    requires
        orderly(job, groups, events),
    ensures
        asked(job, groups, events) is Stop <==> state_after(
            proxy::started(job, groups).0,
            events,
        ).phase is Done,
{
    orderly_run_is_on_course(job, groups, events);
}

} // verus!
