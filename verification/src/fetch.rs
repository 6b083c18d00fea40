//! Fetching the model list of a backend, as a machine that says what to do next.
//!
//! Two addresses are tried, `/v1/models` and then `/models` below the base
//! address. The first success whose body can be read decides.

use crate::catalog;
use crate::catalog::parse_model_ids;
use crate::http;
use crate::http::status_line;
use crate::text;
use crate::text::{join2, to_decimal, trim_slashes};
use vstd::prelude::*;

verus! {

/// What the machine asks for.
pub enum FetchAction {
    /// Send a request with the key as bearer token. Answered by `Failed` or
    /// `Status`.
    Get { url: String, key: String },
    /// Read the body of the response. Answered by `Text` or `Unreadable`.
    ReadText,
    /// Nothing; this is the outcome.
    Finish(Result<Vec<String>, String>),
}

/// What a [`FetchAction`] holds.
#[verifier::ext_equal]
pub enum FetchActionView {
    Get { url: Seq<char>, key: Seq<char> },
    ReadText,
    Finish(Result<Seq<Seq<char>>, Seq<char>>),
}

impl View for FetchAction {
    type V = FetchActionView;

    open spec fn view(&self) -> FetchActionView {
        match self {
            FetchAction::Get { url, key } => FetchActionView::Get { url: url@, key: key@ },
            FetchAction::ReadText => FetchActionView::ReadText,
            FetchAction::Finish(outcome) => FetchActionView::Finish(
                match outcome {
                    Ok(models) => Ok(text::views(models@)),
                    Err(reason) => Err(reason@),
                },
            ),
        }
    }
}

/// What came of an action.
pub enum FetchEvent {
    /// There was no response; the text says why.
    Failed(String),
    /// There was a response with this status.
    Status(u16),
    /// The body of the response.
    Text(String),
    /// The body could not be read; the text says why.
    Unreadable(String),
}

/// What a [`FetchEvent`] holds.
#[verifier::ext_equal]
pub enum FetchEventView {
    Failed(Seq<char>),
    Status(u16),
    Text(Seq<char>),
    Unreadable(Seq<char>),
}

impl View for FetchEvent {
    type V = FetchEventView;

    open spec fn view(&self) -> FetchEventView {
        match self {
            FetchEvent::Failed(reason) => FetchEventView::Failed(reason@),
            FetchEvent::Status(code) => FetchEventView::Status(*code),
            FetchEvent::Text(body) => FetchEventView::Text(body@),
            FetchEvent::Unreadable(reason) => FetchEventView::Unreadable(reason@),
        }
    }
}

/// What the machine waits for.
#[derive(Debug, Clone, Copy, PartialEq, Eq, Structural)]
pub enum FetchPhase {
    /// The response of an address.
    Asking,
    /// The body of a response.
    Reading,
    /// Nothing.
    Done,
}

/// A fetch under way.
pub struct Fetch {
    base: String,
    key: String,
    fallback: bool,
    phase: FetchPhase,
}

/// What a [`Fetch`] holds: the base address without trailing slashes, the key,
/// whether the second address is being tried, and what it waits for.
#[verifier::ext_equal]
pub struct FetchView {
    pub base: Seq<char>,
    pub key: Seq<char>,
    pub fallback: bool,
    pub phase: FetchPhase,
}

impl View for Fetch {
    type V = FetchView;

    closed spec fn view(&self) -> FetchView {
        FetchView {
            base: self.base@,
            key: self.key@,
            fallback: self.fallback,
            phase: self.phase,
        }
    }
}

/// Whether a status is a success.
pub open spec fn success(code: u16) -> bool {
    200 <= code < 300
}

/// The reason that a status other than a success gives.
pub open spec fn status_reason(code: u16) -> Seq<char> {
    "HTTP "@ + (if http::status_exists(code) {
        http::status_text(code)
    } else {
        text::decimal(code as nat)
    })
}

/// How a fetch starts.
pub open spec fn fetch_started(base_url: Seq<char>, key: Seq<char>) -> FetchView {
    FetchView {
        base: text::without_slashes(base_url),
        key,
        fallback: false,
        phase: FetchPhase::Asking,
    }
}

impl FetchView {
    /// The request for the address being tried.
    pub open spec fn request(self) -> FetchActionView {
        FetchActionView::Get {
            url: self.base + (if self.fallback {
                "/models"@
            } else {
                "/v1/models"@
            }),
            key: self.key,
        }
    }

    /// After the address being tried has failed for `reason`: on to the second
    /// address, or to the end with this reason.
    pub open spec fn failed(self, reason: Seq<char>) -> (FetchView, FetchActionView) {
        if self.fallback {
            (
                FetchView { phase: FetchPhase::Done, ..self },
                FetchActionView::Finish(Err(reason)),
            )
        } else {
            let next = FetchView { fallback: true, phase: FetchPhase::Asking, ..self };
            (next, next.request())
        }
    }

    /// What an event leads to. An event that does not answer the last action
    /// ends the fetch without a list.
    pub open spec fn after(self, event: FetchEventView) -> (FetchView, FetchActionView) {
        match (self.phase, event) {
            (FetchPhase::Asking, FetchEventView::Failed(reason)) => self.failed(reason),
            (FetchPhase::Asking, FetchEventView::Status(code)) => if success(code) {
                (
                    FetchView { phase: FetchPhase::Reading, ..self },
                    FetchActionView::ReadText,
                )
            } else {
                self.failed(status_reason(code))
            },
            (FetchPhase::Reading, FetchEventView::Text(body)) => (
                FetchView { phase: FetchPhase::Done, ..self },
                FetchActionView::Finish(Ok(catalog::ids_in(body))),
            ),
            (FetchPhase::Reading, FetchEventView::Unreadable(reason)) => self.failed(reason),
            _ => (
                FetchView { phase: FetchPhase::Done, ..self },
                FetchActionView::Finish(Err("两个端点均不可用"@)),
            ),
        }
    }
}

impl Fetch {
    /// The request for the address being tried.
    fn request(&self) -> (r: FetchAction)
        ensures
            r@ == self@.request(),
    {
        let path = if self.fallback {
            "/models"
        } else {
            "/v1/models"
        };
        FetchAction::Get { url: join2(self.base.as_str(), path), key: self.key.clone() }
    }

    /// Starts a fetch of the model list below `base_url`.
    pub fn start(base_url: &str, key: &str) -> (r: (Fetch, FetchAction))
        ensures
            r.0@ == fetch_started(base_url@, key@),
            r.1@ == r.0@.request(),
    {
        let fetch = Fetch {
            base: trim_slashes(base_url),
            key: key.to_owned(),
            fallback: false,
            phase: FetchPhase::Asking,
        };
        let action = fetch.request();
        (fetch, action)
    }

    /// Gives up the address being tried.
    fn fail(&mut self, reason: String) -> (r: FetchAction)
        ensures
            (final(self)@, r@) == old(self)@.failed(reason@),
    {
        if self.fallback {
            self.phase = FetchPhase::Done;
            FetchAction::Finish(Err(reason))
        } else {
            self.fallback = true;
            self.phase = FetchPhase::Asking;
            self.request()
        }
    }

    /// Takes in what came of the last action and says what to do next.
    pub fn step(&mut self, event: FetchEvent) -> (r: FetchAction)
        ensures
            (final(self)@, r@) == old(self)@.after(event@),
    {
        match (self.phase, event) {
            (FetchPhase::Asking, FetchEvent::Failed(reason)) => self.fail(reason),
            (FetchPhase::Asking, FetchEvent::Status(code)) => {
                if 200 <= code && code < 300 {
                    self.phase = FetchPhase::Reading;
                    FetchAction::ReadText
                } else {
                    let shown = match status_line(code) {
                        Some(line) => line,
                        None => to_decimal(code as usize),
                    };
                    self.fail(join2("HTTP ", shown.as_str()))
                }
            },
            (FetchPhase::Reading, FetchEvent::Text(body)) => {
                self.phase = FetchPhase::Done;
                FetchAction::Finish(Ok(parse_model_ids(body.as_str())))
            },
            (FetchPhase::Reading, FetchEvent::Unreadable(reason)) => self.fail(reason),
            _ => {
                self.phase = FetchPhase::Done;
                FetchAction::Finish(Err("两个端点均不可用".to_owned()))
            },
        }
    }
}

} // verus!
