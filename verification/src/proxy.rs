//! The failover of one proxy job, as a machine that says what to do next.
//!
//! An answer from upstream falls into one of four classes. A success is streamed
//! back to the client. An answer that says that the key is spent moves on to the
//! next key of the same backend. A backend that cannot be reached is left for
//! the next backend. Any other answer is the client's own error and goes back to
//! it as it came. Once the client has been sent a status, no other backend is
//! tried.
//!
//! The machine performs no input or output itself. Each [`Action`] that it asks
//! for is answered by an [`Event`].

use crate::clock;
use crate::clock::LONGEST;
use crate::http;
use crate::http::header_to_str;
use crate::payload;
use crate::payload::shared;
use crate::resolver;
use crate::resolver::{ResolvedBackend, ResolvedBackendView, Resolver, ResolverView};
use crate::text;
use crate::text::{join, join2, join3};
use crate::worker::{ProxyEvent, ProxyEventView, ProxyJob, ProxyJobView};
use bytes::Bytes;
use vstd::prelude::*;

verus! {

/// What an upstream status means for the failover.
#[derive(Debug, Clone, Copy, PartialEq, Eq, Structural)]
pub enum Class {
    /// The answer is streamed back.
    Success,
    /// The key is spent; the next key may do.
    KeyExhausted,
    /// The backend is down; its other keys are not worth trying.
    BackendUnreachable,
    /// The request itself is at fault.
    ClientError,
}

/// The class of a status.
pub open spec fn class_of(status: u16) -> Class {
    if status >= 500 {
        Class::BackendUnreachable
    } else if status == 401 || status == 402 || status == 403 || status == 429 {
        Class::KeyExhausted
    } else if 200 <= status < 300 {
        Class::Success
    } else {
        Class::ClientError
    }
}

/// The class of a status.
pub fn classify_status(status: u16) -> (r: Class)
    ensures
        r == class_of(status),
{
    if status >= 500 {
        Class::BackendUnreachable
    } else if status == 401 || status == 402 || status == 403 || status == 429 {
        Class::KeyExhausted
    } else if 200 <= status && status < 300 {
        Class::Success
    } else {
        Class::ClientError
    }
}

/// A request to an upstream backend.
pub struct UpstreamRequest {
    pub url: String,
    /// The value of the `Authorization` header.
    pub authorization: String,
    /// The value of the `Content-Type` header.
    pub content_type: String,
    pub body: Bytes,
}

/// What an [`UpstreamRequest`] holds.
#[verifier::ext_equal]
pub struct UpstreamRequestView {
    pub url: Seq<char>,
    pub authorization: Seq<char>,
    pub content_type: Seq<char>,
    pub body: Seq<u8>,
}

impl View for UpstreamRequest {
    type V = UpstreamRequestView;

    open spec fn view(&self) -> UpstreamRequestView {
        UpstreamRequestView {
            url: self.url@,
            authorization: self.authorization@,
            content_type: self.content_type@,
            body: payload::held(self.body),
        }
    }
}

/// What the machine asks for.
pub enum Action {
    /// Send a request upstream. Answered by `TransportError` or `Response`.
    Post(UpstreamRequest),
    /// Read the whole body of the response. Answered by `Body`.
    ReadBody,
    /// Send an event to the client. Answered by `Delivered` or `Disconnected`.
    Send(ProxyEvent),
    /// Read the next part of the body. Answered by `Chunk`, `StreamError` or
    /// `StreamEnd`.
    ReadChunk,
    /// The job is over.
    Stop,
}

/// What an [`Action`] holds.
#[verifier::ext_equal]
pub enum ActionView {
    Post(UpstreamRequestView),
    ReadBody,
    Send(ProxyEventView),
    ReadChunk,
    Stop,
}

impl View for Action {
    type V = ActionView;

    open spec fn view(&self) -> ActionView {
        match self {
            Action::Post(request) => ActionView::Post(request@),
            Action::ReadBody => ActionView::ReadBody,
            Action::Send(event) => ActionView::Send(event@),
            Action::ReadChunk => ActionView::ReadChunk,
            Action::Stop => ActionView::Stop,
        }
    }
}

/// What came of an action.
pub enum Event {
    /// The upstream request got no response.
    TransportError,
    /// The upstream request got a response. `content_type` is the value of that
    /// header, where the response has it.
    Response { status: u16, content_type: Option<Vec<u8>> },
    /// The whole body, empty where it could not be read.
    Body(Bytes),
    /// The client took the event.
    Delivered,
    /// The client is gone.
    Disconnected,
    /// A part of the body.
    Chunk(Bytes),
    /// The body broke off.
    StreamError,
    /// The body is complete.
    StreamEnd,
}

/// What an [`Event`] holds.
#[verifier::ext_equal]
pub enum EventView {
    TransportError,
    Response { status: u16, content_type: Option<Seq<u8>> },
    Body(Seq<u8>),
    Delivered,
    Disconnected,
    Chunk(Seq<u8>),
    StreamError,
    StreamEnd,
}

impl View for Event {
    type V = EventView;

    open spec fn view(&self) -> EventView {
        match self {
            Event::TransportError => EventView::TransportError,
            Event::Response { status, content_type } => EventView::Response {
                status: *status,
                content_type: match content_type {
                    Some(bytes) => Some(bytes@),
                    None => None,
                },
            },
            Event::Body(b) => EventView::Body(payload::held(*b)),
            Event::Delivered => EventView::Delivered,
            Event::Disconnected => EventView::Disconnected,
            Event::Chunk(b) => EventView::Chunk(payload::held(*b)),
            Event::StreamError => EventView::StreamError,
            Event::StreamEnd => EventView::StreamEnd,
        }
    }
}

/// What the machine waits for.
enum Phase {
    /// The upstream response of the current key.
    Trying,
    /// The body of a response that is the client's own error.
    ReadingError { status: u16 },
    /// The client to take the status. `body` is the whole body where it is known
    /// already; otherwise the upstream body follows.
    Answering { body: Option<Bytes> },
    /// The next part of the upstream body.
    Streaming,
    /// The client to take a part of the upstream body.
    Forwarding,
    /// The client to take the last event.
    Closing,
    /// Nothing.
    Done,
}

/// What the machine waits for; see the documentation of each variant.
#[verifier::ext_equal]
pub enum PhaseView {
    /// The upstream response of the current key.
    Trying,
    /// The body of a response that is the client's own error.
    ReadingError { status: u16 },
    /// The client to take the status. `body` is the whole body where it is known
    /// already; otherwise the upstream body follows.
    Answering { body: Option<Seq<u8>> },
    /// The next part of the upstream body.
    Streaming,
    /// The client to take a part of the upstream body.
    Forwarding,
    /// The client to take the last event.
    Closing,
    /// Nothing.
    Done,
}

impl Phase {
    spec fn view(&self) -> PhaseView {
        match self {
            Phase::Trying => PhaseView::Trying,
            Phase::ReadingError { status } => PhaseView::ReadingError { status: *status },
            Phase::Answering { body } => PhaseView::Answering {
                body: match body {
                    Some(b) => Some(payload::held(*b)),
                    None => None,
                },
            },
            Phase::Streaming => PhaseView::Streaming,
            Phase::Forwarding => PhaseView::Forwarding,
            Phase::Closing => PhaseView::Closing,
            Phase::Done => PhaseView::Done,
        }
    }
}

/// What is to be recorded about the health of a backend.
#[verifier::ext_equal]
pub enum Mark {
    Nothing,
    Healthy { backend: int, key: int },
    Exhausted { backend: int, key: int },
    Unreachable { backend: int },
}

/// The resolver after a mark at the time `now`.
pub open spec fn marked(v: ResolverView, mark: Mark, now: u128) -> ResolverView {
    match mark {
        Mark::Nothing => v,
        Mark::Healthy { backend, key } => v.key_ok(backend, key).preferred(backend, key),
        Mark::Exhausted { backend, key } => v.key_exhausted(backend, key, now),
        Mark::Unreachable { backend } => v.backend_unreachable(backend, now),
    }
}

/// What a [`Run`] holds: the job, the backends to try, the position among them,
/// why each backend so far has failed, and what it waits for.
#[verifier::ext_equal]
pub struct RunView {
    pub job: ProxyJobView,
    pub groups: Seq<ResolvedBackendView>,
    pub group: int,
    pub key: int,
    pub reasons: Seq<Seq<char>>,
    pub phase: PhaseView,
}

/// The content type to report for a success: that of the upstream response, or
/// `text/event-stream` where it has none that is text.
pub open spec fn reported_type(header: Option<Seq<u8>>) -> Seq<char> {
    match header {
        Some(bytes) => match http::header_text(bytes) {
            Some(s) => s,
            None => "text/event-stream"@,
        },
        None => "text/event-stream"@,
    }
}

/// The request that forwards a job to a backend with a key.
pub open spec fn forwarded(
    job: ProxyJobView,
    base_url: Seq<char>,
    key: Seq<char>,
) -> UpstreamRequestView {
    UpstreamRequestView {
        url: base_url + job.path,
        authorization: "Bearer "@ + key,
        content_type: "application/json"@,
        body: job.body,
    }
}

/// The reason of a backend of which every key is exhausted.
pub open spec fn exhausted_reason(name: Seq<char>) -> Seq<char> {
    name + ": all keys exhausted"@
}

/// The reason of a backend that could not be reached.
pub open spec fn unreachable_reason(name: Seq<char>) -> Seq<char> {
    name + ": unreachable"@
}

/// The message for a model that has no backend to try.
pub open spec fn nothing_to_try(model: Seq<char>) -> Seq<char> {
    "no backend available for model '"@ + model + "'"@
}

/// The message for a model of which every backend failed.
pub open spec fn all_failed(model: Seq<char>, reasons: Seq<Seq<char>>) -> Seq<char> {
    "all configured backends failed for model '"@ + model + "': "@ + text::joined(reasons, "; "@)
}

impl RunView {
    /// Goes on from the current position: to its key if it has one, else to the
    /// next backend, and to a failure when no backend is left.
    pub open spec fn settled(self) -> (RunView, ActionView)
        decreases self.groups.len() - self.group,
    {
        if self.group >= self.groups.len() {
            (
                RunView { phase: PhaseView::Closing, ..self },
                ActionView::Send(
                    ProxyEventView::Failed(all_failed(self.job.model, self.reasons)),
                ),
            )
        } else if self.key < self.groups[self.group].keys.len() {
            let g = self.groups[self.group];
            (
                RunView { phase: PhaseView::Trying, ..self },
                ActionView::Post(forwarded(self.job, g.base_url, g.keys[self.key].key)),
            )
        } else {
            RunView {
                group: self.group + 1,
                key: 0,
                reasons: self.reasons.push(
                    exhausted_reason(self.groups[self.group].backend_name),
                ),
                ..self
            }.settled()
        }
    }

    /// The backend being tried.
    pub open spec fn backend(self) -> ResolvedBackendView {
        self.groups[self.group]
    }

    /// After the current key signalled exhaustion.
    pub open spec fn after_exhaustion(self) -> (RunView, ActionView) {
        RunView { key: self.key + 1, ..self }.settled()
    }

    /// After the current backend could not be reached.
    pub open spec fn after_unreachable(self) -> (RunView, ActionView) {
        RunView {
            group: self.group + 1,
            key: 0,
            reasons: self.reasons.push(unreachable_reason(self.backend().backend_name)),
            ..self
        }.settled()
    }

    /// The machine with nothing left to do.
    pub open spec fn stopped(self) -> (RunView, ActionView, Mark) {
        (RunView { phase: PhaseView::Done, ..self }, ActionView::Stop, Mark::Nothing)
    }

    /// After the upstream response of the current key.
    pub open spec fn after_response(
        self,
        status: u16,
        content_type: Option<Seq<u8>>,
    ) -> (RunView, ActionView, Mark) {
        let backend = self.backend().backend_index;
        let key = self.backend().keys[self.key].key_index;
        match class_of(status) {
            Class::Success => (
                RunView { phase: PhaseView::Answering { body: None }, ..self },
                ActionView::Send(
                    ProxyEventView::Respond { status, content_type: reported_type(content_type) },
                ),
                Mark::Healthy { backend, key },
            ),
            Class::KeyExhausted => (
                self.after_exhaustion().0,
                self.after_exhaustion().1,
                Mark::Exhausted { backend, key },
            ),
            Class::BackendUnreachable => (
                self.after_unreachable().0,
                self.after_unreachable().1,
                Mark::Unreachable { backend },
            ),
            Class::ClientError => (
                RunView { phase: PhaseView::ReadingError { status }, ..self },
                ActionView::ReadBody,
                Mark::Nothing,
            ),
        }
    }

    /// What an event leads to: the next state, the next action, and what to
    /// record. An event that does not answer the last action ends the job, as do
    /// a client that is gone and a body that is over.
    pub open spec fn after(self, event: EventView) -> (RunView, ActionView, Mark) {
        match (self.phase, event) {
            (PhaseView::Trying, EventView::TransportError) => (
                self.after_unreachable().0,
                self.after_unreachable().1,
                Mark::Unreachable { backend: self.backend().backend_index },
            ),
            (
                PhaseView::Trying,
                EventView::Response { status, content_type },
            ) => self.after_response(status, content_type),
            (PhaseView::ReadingError { status }, EventView::Body(body)) => (
                RunView { phase: PhaseView::Answering { body: Some(body) }, ..self },
                ActionView::Send(
                    ProxyEventView::Respond { status, content_type: "application/json"@ },
                ),
                Mark::Nothing,
            ),
            (PhaseView::Answering { body: None }, EventView::Delivered) => (
                RunView { phase: PhaseView::Streaming, ..self },
                ActionView::ReadChunk,
                Mark::Nothing,
            ),
            (PhaseView::Answering { body: Some(body) }, EventView::Delivered) => (
                RunView { phase: PhaseView::Closing, ..self },
                ActionView::Send(ProxyEventView::Chunk(body)),
                Mark::Nothing,
            ),
            (PhaseView::Streaming, EventView::Chunk(bytes)) => (
                RunView { phase: PhaseView::Forwarding, ..self },
                ActionView::Send(ProxyEventView::Chunk(bytes)),
                Mark::Nothing,
            ),
            (PhaseView::Forwarding, EventView::Delivered) => (
                RunView { phase: PhaseView::Streaming, ..self },
                ActionView::ReadChunk,
                Mark::Nothing,
            ),
            _ => self.stopped(),
        }
    }

    /// While a response is awaited, the key that was sent exists. The positions
    /// of the keys leave room for the one after.
    pub open spec fn wf(self) -> bool {
        &&& 0 <= self.group <= self.groups.len() <= usize::MAX
        &&& 0 <= self.key
        &&& self.phase is Trying ==> {
            &&& self.group < self.groups.len()
            &&& self.key < self.groups[self.group].keys.len()
        }
        &&& room(self.groups)
    }
}

/// Every position in `groups` fits a machine word, with room for one more.
pub open spec fn room(groups: Seq<ResolvedBackendView>) -> bool {
    forall|i: int, j: int|
        0 <= i < groups.len() && 0 <= j < groups[i].keys.len() ==> 0
            <= groups[i].backend_index <= usize::MAX && 0 <= (
        #[trigger] groups[i].keys[j]).key_index < usize::MAX
}

/// A job at its start: nothing has been tried.
pub open spec fn unstarted(
    job: ProxyJobView,
    groups: Seq<ResolvedBackendView>,
) -> RunView {
    RunView {
        job,
        groups,
        group: 0,
        key: 0,
        reasons: Seq::empty(),
        phase: PhaseView::Closing,
    }
}

/// How a job starts: with its first key, or with a failure where there is no
/// backend to try.
pub open spec fn started(
    job: ProxyJobView,
    groups: Seq<ResolvedBackendView>,
) -> (RunView, ActionView) {
    if groups.len() == 0 {
        (
            unstarted(job, groups),
            ActionView::Send(ProxyEventView::Failed(nothing_to_try(job.model))),
        )
    } else {
        unstarted(job, groups).settled()
    }
}

/// One proxy job under way.
pub struct Run {
    job: ProxyJob,
    groups: Vec<ResolvedBackend>,
    group: usize,
    key: usize,
    reasons: Vec<String>,
    phase: Phase,
}

impl View for Run {
    type V = RunView;

    closed spec fn view(&self) -> RunView {
        RunView {
            job: self.job@,
            groups: resolver::group_views(self.groups@),
            group: self.group as int,
            key: self.key as int,
            reasons: text::views(self.reasons@),
            phase: self.phase.view(),
        }
    }
}

impl Run {
    /// Goes on from the current position.
    fn settle(&mut self) -> (r: Action)
        requires
            old(self)@.group <= old(self)@.groups.len(),
            room(old(self)@.groups),
        ensures
            (final(self)@, r@) == old(self)@.settled(),
            final(self)@.wf(),
    {
        while self.group < self.groups.len() && self.key >= self.groups[self.group].keys.len()
            invariant
                self@.group <= self@.groups.len(),
                self@.groups == old(self)@.groups,
                self@.settled() == old(self)@.settled(),
            decreases self.groups@.len() - self.group,
        {
            let ghost before = self@;
            let reason = join2(
                self.groups[self.group].backend_name.as_str(),
                ": all keys exhausted",
            );
            self.reasons.push(reason);
            self.group += 1;
            self.key = 0;
            proof {
                let g = before.groups[before.group];
                assert(g == self.groups@[before.group]@);
                assert(self@.reasons =~= before.reasons.push(exhausted_reason(g.backend_name)));
                assert(self@ =~= (RunView {
                    group: before.group + 1,
                    key: 0,
                    reasons: before.reasons.push(exhausted_reason(g.backend_name)),
                    ..before
                }));
            }
        }
        let ghost here = self@;
        if self.group >= self.groups.len() {
            let mut message = join3(
                "all configured backends failed for model '",
                self.job.model.as_str(),
                "': ",
            );
            message.append(join(&self.reasons, "; ").as_str());
            self.phase = Phase::Closing;
            assert(self@ =~= (RunView { phase: PhaseView::Closing, ..here }));
            Action::Send(ProxyEvent::Failed(message))
        } else {
            let g = &self.groups[self.group];
            proof {
                assert(here.groups[here.group] == g@);
                assert(g@.keys[here.key] == g.keys@[here.key]@);
            }
            let request = UpstreamRequest {
                url: join2(g.base_url.as_str(), self.job.path.as_str()),
                authorization: join2("Bearer ", g.keys[self.key].key.as_str()),
                content_type: "application/json".to_owned(),
                body: shared(&self.job.body),
            };
            self.phase = Phase::Trying;
            assert(self@ =~= (RunView { phase: PhaseView::Trying, ..here }));
            Action::Post(request)
        }
    }

    /// Starts a job with the backends to try.
    pub fn start_with(job: ProxyJob, groups: Vec<ResolvedBackend>) -> (r: (Run, Action))
        requires
            room(resolver::group_views(groups@)),
        ensures
            (r.0@, r.1@) == started(job@, resolver::group_views(groups@)),
            r.0@.wf(),
    {
        let none = groups.len() == 0;
        let mut run = Run {
            job,
            groups,
            group: 0,
            key: 0,
            reasons: Vec::new(),
            phase: Phase::Closing,
        };
        assert(run@ =~= unstarted(job@, resolver::group_views(groups@)));
        let action = if none {
            let message = join3("no backend available for model '", run.job.model.as_str(), "'");
            Action::Send(ProxyEvent::Failed(message))
        } else {
            run.settle()
        };
        (run, action)
    }

    /// Starts a job with the backends that the resolver offers now for the model
    /// that the job names.
    pub fn start(job: ProxyJob, resolver: &Resolver) -> (r: (Run, Action))
        requires
            resolver@.wf(),
        ensures
            exists|now: u128| #![trigger resolver@.resolved(job@.model, now)]
                now <= LONGEST && clock::reading(resolver.origin(), now) && (r.0@, r.1@)
                    == started(job@, resolver@.resolved(job@.model, now)),
            r.0@.wf(),
    {
        let groups = resolver.resolve(job.model.as_str());
        proof {
            let now = choose|now: u128| #[trigger]
                resolver@.resolved(job@.model, now) == resolver::group_views(groups@) && now
                    <= LONGEST && clock::reading(resolver.origin(), now);
            resolved_has_room(resolver@, job@.model, now, groups@);
        }
        Run::start_with(job, groups)
    }

    /// Takes in what came of the last action, at the time `now`, and says what
    /// to do next. What the event says about the health of a key or a backend is
    /// recorded in `resolver`.
    pub fn step_at(&mut self, resolver: &mut Resolver, event: Event, now: u128) -> (r: Action)
        requires
            old(self)@.wf(),
            old(resolver)@.wf(),
            now + old(resolver)@.key_cooldown <= u128::MAX,
            now + old(resolver)@.backend_cooldown <= u128::MAX,
        ensures
            (final(self)@, r@) == (old(self)@.after(event@).0, old(self)@.after(event@).1),
            final(resolver)@ == marked(old(resolver)@, old(self)@.after(event@).2, now),
            final(resolver).origin() == old(resolver).origin(),
            final(self)@.wf(),
            final(resolver)@.wf(),
    {
        let ghost v = self@;
        let mut phase = Phase::Done;
        std::mem::swap(&mut phase, &mut self.phase);
        let ghost idle = RunView { phase: PhaseView::Done, ..v };
        assert(self@ =~= idle);
        match (phase, event) {
            (Phase::Trying, Event::TransportError) => {
                self.give_up_backend(resolver, now)
            },
            (Phase::Trying, Event::Response { status, content_type }) => {
                let (backend_index, key_index) = self.position();
                match classify_status(status) {
                    Class::Success => {
                        resolver.mark_key_ok(backend_index, key_index);
                        resolver.prefer_key(backend_index, key_index);
                        let content_type = content_type_of(content_type);
                        self.phase = Phase::Answering { body: None };
                        assert(self@ =~= (RunView {
                            phase: PhaseView::Answering { body: None },
                            ..v
                        }));
                        Action::Send(ProxyEvent::Respond { status, content_type })
                    },
                    Class::KeyExhausted => {
                        resolver.mark_key_exhausted_at(backend_index, key_index, now);
                        self.key += 1;
                        self.phase = Phase::Trying;
                        assert(self@ =~= (RunView { key: v.key + 1, ..v }));
                        self.settle()
                    },
                    Class::BackendUnreachable => self.give_up_backend(resolver, now),
                    Class::ClientError => {
                        self.phase = Phase::ReadingError { status };
                        assert(self@ =~= (RunView {
                            phase: PhaseView::ReadingError { status },
                            ..v
                        }));
                        Action::ReadBody
                    },
                }
            },
            (Phase::ReadingError { status }, Event::Body(body)) => {
                self.phase = Phase::Answering { body: Some(body) };
                assert(self@ =~= (RunView {
                    phase: PhaseView::Answering { body: Some(payload::held(body)) },
                    ..v
                }));
                Action::Send(
                    ProxyEvent::Respond { status, content_type: "application/json".to_owned() },
                )
            },
            (Phase::Answering { body: None }, Event::Delivered) => {
                self.phase = Phase::Streaming;
                assert(self@ =~= (RunView { phase: PhaseView::Streaming, ..v }));
                Action::ReadChunk
            },
            (Phase::Answering { body: Some(body) }, Event::Delivered) => {
                self.phase = Phase::Closing;
                assert(self@ =~= (RunView { phase: PhaseView::Closing, ..v }));
                Action::Send(ProxyEvent::Chunk(body))
            },
            (Phase::Streaming, Event::Chunk(bytes)) => {
                self.phase = Phase::Forwarding;
                assert(self@ =~= (RunView { phase: PhaseView::Forwarding, ..v }));
                Action::Send(ProxyEvent::Chunk(bytes))
            },
            (Phase::Forwarding, Event::Delivered) => {
                self.phase = Phase::Streaming;
                assert(self@ =~= (RunView { phase: PhaseView::Streaming, ..v }));
                Action::ReadChunk
            },
            _ => Action::Stop,
        }
    }

    /// Takes in what came of the last action, now, and says what to do next.
    pub fn step(&mut self, resolver: &mut Resolver, event: Event) -> (r: Action)
        requires
            old(self)@.wf(),
            old(resolver)@.wf(),
        ensures
            (final(self)@, r@) == (old(self)@.after(event@).0, old(self)@.after(event@).1),
            exists|now: u128|
                now <= LONGEST && clock::reading(old(resolver).origin(), now) && final(resolver)@
                    == #[trigger] marked(old(resolver)@, old(self)@.after(event@).2, now),
            final(resolver).origin() == old(resolver).origin(),
            final(self)@.wf(),
            final(resolver)@.wf(),
    {
        let now = resolver.now();
        self.step_at(resolver, event, now)
    }

    /// The positions of the backend and the key being tried.
    fn position(&self) -> (r: (usize, usize))
        requires
            self@.group < self@.groups.len(),
            self@.key < self@.groups[self@.group].keys.len(),
        ensures
            r.0 == self@.backend().backend_index,
            r.1 == self@.backend().keys[self@.key].key_index,
            self@.key < usize::MAX,
    {
        let g = &self.groups[self.group];
        assert(self@.groups[self@.group] == g@);
        assert(g@.keys[self@.key] == g.keys@[self@.key]@);
        assert(self.key < g.keys.len());
        (g.backend_index, g.keys[self.key].key_index)
    }

    /// Records that the current backend could not be reached and goes on with
    /// the next one.
    fn give_up_backend(&mut self, resolver: &mut Resolver, now: u128) -> (r: Action)
        requires
            old(self)@.group < old(self)@.groups.len() <= usize::MAX,
            old(self)@.key < old(self)@.groups[old(self)@.group].keys.len(),
            room(old(self)@.groups),
            old(resolver)@.wf(),
            now + old(resolver)@.backend_cooldown <= u128::MAX,
        ensures
            ({
                let v = RunView { phase: PhaseView::Trying, ..old(self)@ };
                &&& (final(self)@, r@) == v.after_unreachable()
                &&& final(resolver)@ == old(resolver)@.backend_unreachable(
                    v.backend().backend_index,
                    now,
                )
                &&& final(resolver).origin() == old(resolver).origin()
            }),
            final(self)@.wf(),
            final(resolver)@.wf(),
    {
        let ghost v = RunView { phase: PhaseView::Trying, ..self@ };
        let (backend_index, _) = self.position();
        assert(v.groups[v.group] == self.groups@[v.group]@);
        resolver.mark_backend_unreachable_at(backend_index, now);
        let reason = join2(self.groups[self.group].backend_name.as_str(), ": unreachable");
        self.reasons.push(reason);
        self.group += 1;
        self.key = 0;
        self.phase = Phase::Trying;
        proof {
            let reason = unreachable_reason(v.backend().backend_name);
            assert(self@.reasons =~= v.reasons.push(reason));
            assert(self@ =~= (RunView {
                group: v.group + 1,
                key: 0,
                reasons: v.reasons.push(reason),
                ..v
            }));
        }
        self.settle()
    }
}

/// The content type to report for a success.
fn content_type_of(header: Option<Vec<u8>>) -> (r: String)
    ensures
        r@ == reported_type(
            match header {
                Some(bytes) => Some(bytes@),
                None => None,
            },
        ),
{
    match header {
        Some(bytes) => match header_to_str(&bytes) {
            Some(s) => s,
            None => "text/event-stream".to_owned(),
        },
        None => "text/event-stream".to_owned(),
    }
}

/// What the resolver hands out leaves room for the position after each key.
proof fn resolved_has_room(
    v: ResolverView,
    model: Seq<char>,
    now: u128,
    groups: Seq<ResolvedBackend>,
)
    requires
        v.wf(),
        resolver::group_views(groups) == v.resolved(model, now),
    ensures
        room(resolver::group_views(groups)),
{
    let r = v.resolved(model, now);
    assert forall|i: int, j: int| 0 <= i < r.len() && 0 <= j < r[i].keys.len() implies 0
        <= r[i].backend_index <= usize::MAX && 0 <= (#[trigger] r[i].keys[j]).key_index
        < usize::MAX by {
        crate::laws::routing::resolved_is_what_is_offered(v, model, now);
        crate::laws::routing::resolved_comes_from_the_configuration(v, model, now, i);
        assert(r[i] == groups[i]@);
        let b = r[i].backend_index;
        assert(resolver::key_texts(v.health[b]).len() == v.health[b].keys.len());
        assert(r[i].keys[j].key_index < v.health[b].keys.len());
    }
}

} // verus!
