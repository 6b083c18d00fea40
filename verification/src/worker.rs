//! The unit of work of the proxy, and what it sends back to the client.

use crate::payload;
use bytes::Bytes;
use vstd::prelude::*;

verus! {

/// One request to forward.
pub struct ProxyJob {
    /// The request path, forwarded as it is.
    pub path: String,
    /// The request body, forwarded as it is.
    pub body: Bytes,
    /// The model that the request names.
    pub model: String,
}

/// What a [`ProxyJob`] holds.
#[verifier::ext_equal]
pub struct ProxyJobView {
    pub path: Seq<char>,
    pub body: Seq<u8>,
    pub model: Seq<char>,
}

impl View for ProxyJob {
    type V = ProxyJobView;

    open spec fn view(&self) -> ProxyJobView {
        ProxyJobView { path: self.path@, body: payload::held(self.body), model: self.model@ }
    }
}

/// What is sent back to the client.
pub enum ProxyEvent {
    /// The status and the content type of the answer. It comes once, before any
    /// part of the body.
    Respond { status: u16, content_type: String },
    /// A part of the body.
    Chunk(Bytes),
    /// No backend succeeded; the message says why.
    Failed(String),
}

/// What a [`ProxyEvent`] holds.
#[verifier::ext_equal]
pub enum ProxyEventView {
    Respond { status: u16, content_type: Seq<char> },
    Chunk(Seq<u8>),
    Failed(Seq<char>),
}

impl View for ProxyEvent {
    type V = ProxyEventView;

    open spec fn view(&self) -> ProxyEventView {
        match self {
            ProxyEvent::Respond { status, content_type } => ProxyEventView::Respond {
                status: *status,
                content_type: content_type@,
            },
            ProxyEvent::Chunk(b) => ProxyEventView::Chunk(payload::held(*b)),
            ProxyEvent::Failed(message) => ProxyEventView::Failed(message@),
        }
    }
}

} // verus!
