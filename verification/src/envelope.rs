//! The unit of dispatch: a message, the kind it travels under, and the
//! ambient trace id, plus the single-use response capability.

use vstd::prelude::*;

use crate::addr::Addr;
use crate::messages::{Message, MessageView};

verus! {

/// Single-use capability authorizing exactly one `respond` against a pending
/// request slot. It names the requester, the request id, and whether the
/// request collects one or many responses. A forgotten token silently
/// discards the response.
#[derive(Debug, PartialEq)]
pub struct ResponseToken {
    /// The requester's address.
    pub sender: Addr,
    /// The correlation id within the requester's request table.
    pub request_id: usize,
    /// Whether the request collects every response (`RequestAll`).
    pub multi: bool,
    /// A forgotten token discards the response instead of depositing it.
    pub forgotten: bool,
}

impl ResponseToken {
    /// A token that was never tied to a slot; responding through it is a
    /// no-op.
    pub fn forgotten_token() -> (t: ResponseToken)
        ensures
            t.forgotten,
            !t.multi,
    {
        ResponseToken { sender: Addr::null(), request_id: 0, multi: false, forgotten: true }
    }

    pub fn is_forgotten(&self) -> (r: bool)
        ensures
            r == self.forgotten,
    {
        self.forgotten
    }
}

/// How a message travels: one-way, or correlated to a request slot.
#[derive(Debug, PartialEq)]
pub enum MessageKind {
    Regular { sender: Addr },
    RequestAny(ResponseToken),
    RequestAll(ResponseToken),
}

impl MessageKind {
    /// Tokens carried by a kind agree with the kind's arity.
    pub open spec fn wf(self) -> bool {
        match self {
            MessageKind::Regular { .. } => true,
            MessageKind::RequestAny(t) => !t.multi,
            MessageKind::RequestAll(t) => t.multi,
        }
    }
}

/// A message plus kind plus trace id.
#[derive(Debug, PartialEq)]
pub struct Envelope {
    pub message: Message,
    pub kind: MessageKind,
    pub trace_id: u64,
}

/// The mathematical content of an `Envelope`.
pub struct EnvelopeView {
    pub message: MessageView,
    pub kind: MessageKind,
    pub trace_id: u64,
}

impl View for Envelope {
    type V = EnvelopeView;

    open spec fn view(&self) -> EnvelopeView {
        EnvelopeView { message: self.message@, kind: self.kind, trace_id: self.trace_id }
    }
}

impl EnvelopeView {
    pub open spec fn wf(self) -> bool {
        self.message.wf() && self.kind.wf()
    }
}

impl Envelope {
    pub fn new(message: Message, kind: MessageKind, trace_id: u64) -> (e: Envelope)
        ensures
            e@.message == message@,
            e@.kind == kind,
            e@.trace_id == trace_id,
    {
        Envelope { message, kind, trace_id }
    }
}

/// The deep view of an envelope queue.
pub open spec fn envelopes_view(v: Seq<Envelope>) -> Seq<EnvelopeView> {
    v.map_values(|e: Envelope| e@)
}

} // verus!
