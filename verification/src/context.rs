//! The handle each actor uses: send, request/resolve, respond, receive,
//! close, status. The address book is passed to every operation that touches
//! other actors; the context itself carries the actor's address, group,
//! configuration, key, demux, attached sources, and the ambient trace id.

use vstd::prelude::*;

use crate::addr::Addr;
use crate::book::{
    book_equiv, entry_equiv, frame_except, mailbox_equiv, same_but_mailbox, table_equiv,
    ActorStatus, AddressBook,
};
use crate::config::ConfigValue;
use crate::demux::{spec_filter, Demux};
use crate::envelope::{Envelope, EnvelopeView, MessageKind, ResponseToken};
use crate::errors::{RequestError, SendError, TryRecvError, TrySendError};
use crate::messages::{Message, MessageView};
use crate::request_table::SlotView;

verus! {

/// A mailbox that would accept a blocking delivery right now.
pub open spec fn live(b: AddressBook, a: Addr) -> bool {
    b.spec_get(a) matches Some(o) && !o.mailbox.spec_closed()
}

/// `b1` is `b0` after one envelope entered `a`'s mailbox and nothing else
/// changed.
pub open spec fn delivered(
    b0: AddressBook,
    b1: AddressBook,
    a: Addr,
    message: MessageView,
    kind: MessageKind,
    trace_id: u64,
) -> bool {
    &&& frame_except(b0, b1, a)
    &&& b0.spec_get(a) matches Some(o)
    &&& b1.spec_get(a) matches Some(o2)
    &&& o2.addr == o.addr
    &&& o2.status == o.status
    &&& table_equiv(o.request_table, o2.request_table)
    &&& o2.mailbox.spec_capacity() == o.mailbox.spec_capacity()
    &&& o2.mailbox.spec_closed() == o.mailbox.spec_closed()
    &&& o2.mailbox.queue() == o.mailbox.queue().push(
        EnvelopeView { message, kind, trace_id },
    )
}

/// `b1` is `b0` after the live token `t` was consumed without a response:
/// its slot lost a waiter and, for a fan-out request, gained an absent
/// entry. A dead requester absorbs the drop silently.
pub open spec fn token_dropped(b0: AddressBook, b1: AddressBook, t: ResponseToken) -> bool {
    match b0.spec_get(t.sender) {
        Some(o) => {
            &&& frame_except(b0, b1, t.sender)
            &&& b1.spec_get(t.sender) matches Some(o2)
            &&& o2.addr == o.addr
            &&& mailbox_equiv(o.mailbox, o2.mailbox)
            &&& o2.status == o.status
            &&& o2.request_table.next_id() == o.request_table.next_id()
            &&& match o.request_table.slot(t.request_id as int) {
                Some(s) => {
                    if s.outstanding == 0 {
                        o2.request_table.slot(t.request_id as int) == Some(s)
                    } else if s.multi {
                        o2.request_table.slot(t.request_id as int) == Some(
                            SlotView {
                                outstanding: (s.outstanding - 1) as nat,
                                responses: s.responses.push(None),
                                ..s
                            },
                        )
                    } else {
                        o2.request_table.slot(t.request_id as int) == Some(
                            SlotView { outstanding: (s.outstanding - 1) as nat, ..s },
                        )
                    }
                },
                None => table_equiv(o.request_table, o2.request_table),
            }
            &&& forall|id: int|
                id != t.request_id ==> #[trigger] o2.request_table.slot(id)
                    == o.request_table.slot(id)
        },
        None => book_equiv(b0, b1),
    }
}

/// `b1` is `b0` after the live token `t` was returned undelivered: its slot
/// lost the waiter without gaining an entry. A dead requester absorbs it.
pub open spec fn token_released(b0: AddressBook, b1: AddressBook, t: ResponseToken) -> bool {
    match b0.spec_get(t.sender) {
        Some(o) => {
            &&& frame_except(b0, b1, t.sender)
            &&& b1.spec_get(t.sender) matches Some(o2)
            &&& o2.addr == o.addr
            &&& mailbox_equiv(o.mailbox, o2.mailbox)
            &&& o2.status == o.status
            &&& o2.request_table.next_id() == o.request_table.next_id()
            &&& match o.request_table.slot(t.request_id as int) {
                Some(s) => {
                    if s.outstanding == 0 {
                        o2.request_table.slot(t.request_id as int) == Some(s)
                    } else {
                        o2.request_table.slot(t.request_id as int) == Some(
                            SlotView {
                                outstanding: (s.outstanding - 1) as nat,
                                issued: (s.issued - 1) as nat,
                                ..s
                            },
                        )
                    }
                },
                None => table_equiv(o.request_table, o2.request_table),
            }
            &&& forall|id: int|
                id != t.request_id ==> #[trigger] o2.request_table.slot(id)
                    == o.request_table.slot(id)
        },
        None => book_equiv(b0, b1),
    }
}

/// Entry presence and mailbox liveness agree everywhere between two books:
/// nothing was opened, closed, installed or removed.
pub open spec fn same_liveness(b0: AddressBook, b1: AddressBook) -> bool {
    &&& b1.spec_len() == b0.spec_len()
    &&& forall|i: int|
        match (#[trigger] b0.entry_at(i), #[trigger] b1.entry_at(i)) {
            (Some(o), Some(o2)) => o2.mailbox.spec_closed() == o.mailbox.spec_closed(),
            (None, None) => true,
            _ => false,
        }
}

/// The per-actor execution context.
#[derive(Debug)]
pub struct Context {
    addr: Addr,
    group: Addr,
    demux: Demux,
    config: Option<ConfigValue>,
    key: u64,
    source: Vec<Envelope>,
    trace_id: u64,
}

impl Context {
    pub closed spec fn spec_addr(self) -> Addr {
        self.addr
    }

    pub closed spec fn spec_group(self) -> Addr {
        self.group
    }

    pub closed spec fn spec_demux(self) -> Demux {
        self.demux
    }

    pub closed spec fn spec_config(self) -> Option<ConfigValue> {
        self.config
    }

    pub closed spec fn spec_key(self) -> u64 {
        self.key
    }

    pub closed spec fn spec_source(self) -> Seq<EnvelopeView> {
        crate::envelope::envelopes_view(self.source@)
    }

    pub closed spec fn spec_trace_id(self) -> u64 {
        self.trace_id
    }

    /// A context not yet attached to any actor.
    pub fn new(demux: Demux) -> (c: Context)
        ensures
            c.spec_addr().spec_is_null(),
            c.spec_group().spec_is_null(),
            c.spec_demux().subs() == demux.subs(),
            c.spec_config() is None,
            c.spec_key() == 0,
            c.spec_source() == Seq::<EnvelopeView>::empty(),
            c.spec_trace_id() == 0,
    {
        let c = Context {
            addr: Addr::null(),
            group: Addr::null(),
            demux,
            config: None,
            key: 0,
            source: Vec::new(),
            trace_id: 0,
        };
        proof {
            assert(c.spec_source() =~= Seq::<EnvelopeView>::empty());
        }
        c
    }

    pub fn addr(&self) -> (a: Addr)
        ensures
            a == self.spec_addr(),
    {
        self.addr
    }

    pub fn group(&self) -> (a: Addr)
        ensures
            a == self.spec_group(),
    {
        self.group
    }

    pub fn set_addr(&mut self, addr: Addr)
        ensures
            final(self).spec_addr() == addr,
            final(self).spec_group() == old(self).spec_group(),
            final(self).spec_demux() == old(self).spec_demux(),
            final(self).spec_config() == old(self).spec_config(),
            final(self).spec_key() == old(self).spec_key(),
            final(self).spec_source() == old(self).spec_source(),
            final(self).spec_trace_id() == old(self).spec_trace_id(),
    {
        self.addr = addr;
    }

    /// The installed configuration; present once the actor was spawned under
    /// one or an `UpdateConfig` arrived.
    pub fn config(&self) -> (c: &ConfigValue)
        requires
            self.spec_config() is Some,
        ensures
            Some(*c) == self.spec_config(),
    {
        match &self.config {
            Some(c) => c,
            None => unreached(),
        }
    }

    pub fn key(&self) -> (k: u64)
        ensures
            k == self.spec_key(),
    {
        self.key
    }

    /// The ambient trace id: set from each received envelope, fresh on end
    /// of input.
    pub fn trace_id(&self) -> (t: u64)
        ensures
            t == self.spec_trace_id(),
    {
        self.trace_id
    }

    /// Attaches an external event source; its envelopes stand behind the
    /// ones already attached, and behind the mailbox on every receive.
    pub fn with(self, source: Vec<Envelope>) -> (c: Context)
        ensures
            c.spec_addr() == self.spec_addr(),
            c.spec_group() == self.spec_group(),
            c.spec_demux() == self.spec_demux(),
            c.spec_config() == self.spec_config(),
            c.spec_key() == self.spec_key(),
            c.spec_trace_id() == self.spec_trace_id(),
            c.spec_source() == self.spec_source() + crate::envelope::envelopes_view(source@),
    {
        let ghost before = crate::envelope::envelopes_view(self.source@);
        let mut this = self;
        let mut source = source;
        let ghost added = crate::envelope::envelopes_view(source@);
        this.source.append(&mut source);
        proof {
            assert(crate::envelope::envelopes_view(this.source@) =~= before + added);
        }
        this
    }

    /// The user configuration inside a decoded config blob.
    pub fn unpack_config<'c>(&self, config: &'c crate::config::AnyConfig) -> (r: &'c ConfigValue)
        requires
            config@.decoded is Some,
        ensures
            Some(r@) == config@.decoded,
    {
        config.get_user()
    }

    /// A detached context carrying only the routing surface: no
    /// configuration, no key, no sources — for helpers that send but never
    /// receive.
    pub fn pruned(&self) -> (c: Context)
        ensures
            c.spec_addr() == self.spec_addr(),
            c.spec_group() == self.spec_group(),
            c.spec_demux().subs() == self.spec_demux().subs(),
            c.spec_config() is None,
            c.spec_key() == 0,
            c.spec_source() == Seq::<EnvelopeView>::empty(),
            c.spec_trace_id() == self.spec_trace_id(),
    {
        let c = Context {
            addr: self.addr,
            group: self.group,
            demux: self.demux.dup(),
            config: None,
            key: 0,
            source: Vec::new(),
            trace_id: self.trace_id,
        };
        proof {
            assert(c.spec_source() =~= Seq::<EnvelopeView>::empty());
        }
        c
    }

    /// The same context under another configuration.
    pub fn with_config(self, config: ConfigValue) -> (c: Context)
        ensures
            c.spec_addr() == self.spec_addr(),
            c.spec_group() == self.spec_group(),
            c.spec_demux() == self.spec_demux(),
            c.spec_config() matches Some(v) && v@ == config@,
            c.spec_key() == self.spec_key(),
            c.spec_source() == self.spec_source(),
            c.spec_trace_id() == self.spec_trace_id(),
    {
        Context { config: Some(config), ..self }
    }

    /// The same context under another address.
    pub fn with_addr(self, addr: Addr) -> (c: Context)
        ensures
            c.spec_addr() == addr,
            c.spec_group() == self.spec_group(),
            c.spec_demux() == self.spec_demux(),
            c.spec_config() == self.spec_config(),
            c.spec_key() == self.spec_key(),
            c.spec_source() == self.spec_source(),
            c.spec_trace_id() == self.spec_trace_id(),
    {
        Context { addr, ..self }
    }

    /// The same context under another group address.
    pub fn with_group(self, group: Addr) -> (c: Context)
        ensures
            c.spec_addr() == self.spec_addr(),
            c.spec_group() == group,
            c.spec_demux() == self.spec_demux(),
            c.spec_config() == self.spec_config(),
            c.spec_key() == self.spec_key(),
            c.spec_source() == self.spec_source(),
            c.spec_trace_id() == self.spec_trace_id(),
    {
        Context { group, ..self }
    }

    /// The same context under another router key.
    pub fn with_key(self, key: u64) -> (c: Context)
        ensures
            c.spec_addr() == self.spec_addr(),
            c.spec_group() == self.spec_group(),
            c.spec_demux() == self.spec_demux(),
            c.spec_config() == self.spec_config(),
            c.spec_key() == key,
            c.spec_source() == self.spec_source(),
            c.spec_trace_id() == self.spec_trace_id(),
    {
        Context { key, ..self }
    }

    /// Moves this actor along its lifecycle; backward transitions are
    /// ignored.
    pub fn set_status(&self, book: &mut AddressBook, status: ActorStatus)
        requires
            old(book).wf(),
        ensures
            final(book).wf(),
            match old(book).spec_get(self.spec_addr()) {
                Some(o) => {
                    &&& old(book).updated(*final(book), self.spec_addr())
                    &&& final(book).spec_get(self.spec_addr()) matches Some(o2)
                    &&& o2.addr == o.addr
                    &&& o2.mailbox == o.mailbox
                    &&& o2.request_table == o.request_table
                    &&& o2.status == (if status.rank() >= o.status.rank() {
                        status
                    } else {
                        o.status
                    })
                },
                None => *final(book) == *old(book),
            },
    {
        book.set_status_at(self.addr, status);
    }

    /// Closes this actor's mailbox; true only on the transition open ->
    /// closed. Receiving keeps draining what is queued.
    pub fn close(&self, book: &mut AddressBook) -> (r: bool)
        requires
            old(book).wf(),
        ensures
            final(book).wf(),
            match old(book).spec_get(self.spec_addr()) {
                Some(o) => {
                    &&& old(book).updated(*final(book), self.spec_addr())
                    &&& final(book).spec_get(self.spec_addr()) matches Some(o2)
                    &&& same_but_mailbox(o, o2)
                    &&& o2.mailbox.spec_capacity() == o.mailbox.spec_capacity()
                    &&& o2.mailbox.queue() == o.mailbox.queue()
                    &&& o2.mailbox.spec_closed()
                    &&& r == !o.mailbox.spec_closed()
                },
                None => *final(book) == *old(book) && r == false,
            },
    {
        book.close_at(self.addr, )
    }

    /// Bypasses the demux: direct blocking delivery to one recipient.
    pub fn send_to(&self, book: &mut AddressBook, recipient: Addr, message: Message) -> (r: Result<
        (),
        SendError<Message>,
    >)
        requires
            old(book).wf(),
        ensures
            final(book).wf(),
            match r {
                Ok(()) => {
                    &&& live(*old(book), recipient)
                    &&& delivered(
                        *old(book),
                        *final(book),
                        recipient,
                        message@,
                        MessageKind::Regular { sender: self.spec_addr() },
                        self.spec_trace_id(),
                    )
                },
                Err(SendError(m)) => {
                    &&& !live(*old(book), recipient)
                    &&& m@ == message@
                    &&& book_equiv(*old(book), *final(book))
                },
            },
    {
        let kind = MessageKind::Regular { sender: self.addr };
        self.do_send_to(book, recipient, message, kind)
    }

    /// Direct delivery under an explicit kind; request kinds whose delivery
    /// fails drop their token.
    fn do_send_to(
        &self,
        book: &mut AddressBook,
        recipient: Addr,
        message: Message,
        kind: MessageKind,
    ) -> (r: Result<(), SendError<Message>>)
        requires
            old(book).wf(),
        ensures
            final(book).wf(),
            match r {
                Ok(()) => {
                    &&& live(*old(book), recipient)
                    &&& delivered(
                        *old(book),
                        *final(book),
                        recipient,
                        message@,
                        kind,
                        self.spec_trace_id(),
                    )
                },
                Err(SendError(m)) => {
                    &&& !live(*old(book), recipient)
                    &&& m@ == message@
                    &&& match kind {
                        MessageKind::Regular { .. } => book_equiv(*old(book), *final(book)),
                        MessageKind::RequestAny(t) => if t.forgotten {
                            book_equiv(*old(book), *final(book))
                        } else {
                            token_released(*old(book), *final(book), t)
                        },
                        MessageKind::RequestAll(t) => if t.forgotten {
                            book_equiv(*old(book), *final(book))
                        } else {
                            token_released(*old(book), *final(book), t)
                        },
                    }
                },
            },
    {
        let envelope = Envelope::new(message, kind, self.trace_id);
        match book.send_at(recipient, envelope) {
            Ok(()) => Ok(()),
            Err(SendError(e)) => {
                let Envelope { message, kind, trace_id: _ } = e;
                match kind {
                    MessageKind::Regular { .. } => Err(SendError(message)),
                    MessageKind::RequestAny(t) => {
                        if !t.is_forgotten() {
                            book.release_at(t);
                        }
                        Err(SendError(message))
                    },
                    MessageKind::RequestAll(t) => {
                        if !t.is_forgotten() {
                            book.release_at(t);
                        }
                        Err(SendError(message))
                    },
                }
            },
        }
    }

    /// Non-blocking direct delivery, with distinct `Full` and `Closed`
    /// failures carrying the message back.
    pub fn try_send_to(
        &self,
        book: &mut AddressBook,
        recipient: Addr,
        message: Message,
    ) -> (r: Result<(), TrySendError<Message>>)
        requires
            old(book).wf(),
        ensures
            final(book).wf(),
            match r {
                Ok(()) => {
                    &&& live(*old(book), recipient)
                    &&& old(book).spec_get(recipient) matches Some(o) && o.mailbox.queue().len()
                        < o.mailbox.spec_capacity()
                    &&& delivered(
                        *old(book),
                        *final(book),
                        recipient,
                        message@,
                        MessageKind::Regular { sender: self.spec_addr() },
                        self.spec_trace_id(),
                    )
                },
                Err(TrySendError::Full(m)) => {
                    &&& live(*old(book), recipient)
                    &&& old(book).spec_get(recipient) matches Some(o) && o.mailbox.queue().len()
                        >= o.mailbox.spec_capacity()
                    &&& m@ == message@
                    &&& book_equiv(*old(book), *final(book))
                },
                Err(TrySendError::Closed(m)) => {
                    &&& !live(*old(book), recipient)
                    &&& m@ == message@
                    &&& book_equiv(*old(book), *final(book))
                },
            },
    {
        let kind = MessageKind::Regular { sender: self.addr };
        let envelope = Envelope::new(message, kind, self.trace_id);
        match book.try_send_at(recipient, envelope) {
            Ok(()) => Ok(()),
            Err(TrySendError::Full(e)) => {
                let Envelope { message, kind: _, trace_id: _ } = e;
                Err(TrySendError::Full(message))
            },
            Err(TrySendError::Closed(e)) => {
                let Envelope { message, kind: _, trace_id: _ } = e;
                Err(TrySendError::Closed(message))
            },
        }
    }

    /// Responds through a token. A forgotten token is a no-op that cannot
    /// fail; a live one deposits the wrapped response into the requester's
    /// correlated slot, or is consumed silently when the requester died.
    pub fn respond(&self, book: &mut AddressBook, token: ResponseToken, message: Message)
        requires
            old(book).wf(),
        ensures
            final(book).wf(),
            token.forgotten ==> *final(book) == *old(book),
            !token.forgotten ==> responded(
                *old(book),
                *final(book),
                token,
                message@,
                self.spec_addr(),
                self.spec_trace_id(),
            ),
    {
        if token.is_forgotten() {
            return ;
        }
        let sender = self.addr;
        let envelope = Envelope::new(message, MessageKind::Regular { sender }, self.trace_id);
        book.respond_at(token, Some(envelope));
    }

    /// Drops a live token without a response: the requester sees it as
    /// ignored. A forgotten token is dropped without any effect.
    pub fn forget_token(&self, book: &mut AddressBook, token: ResponseToken)
        requires
            old(book).wf(),
        ensures
            final(book).wf(),
            token.forgotten ==> *final(book) == *old(book),
            !token.forgotten ==> token_dropped(*old(book), *final(book), token),
    {
        if token.is_forgotten() {
            return ;
        }
        book.respond_at(token, None);
    }
}

/// The live token an envelope kind carries, if any.
pub open spec fn token_of(k: MessageKind) -> Option<ResponseToken> {
    match k {
        MessageKind::Regular { .. } => None,
        MessageKind::RequestAny(t) => if t.forgotten {
            None
        } else {
            Some(t)
        },
        MessageKind::RequestAll(t) => if t.forgotten {
            None
        } else {
            Some(t)
        },
    }
}

/// What a config message decodes to: the cache when stamped, else the blob.
pub open spec fn decoded_of(c: crate::config::AnyConfigView) -> Option<
    crate::config::ConfigView,
> {
    match c.decoded {
        Some(v) => Some(v),
        None => crate::config::spec_dec_config(c.blob),
    }
}

/// `b1` is `b0` after the actor behind `a` advanced towards `st` (backward
/// transitions ignored); a missing actor absorbs it.
pub open spec fn status_advanced(
    b0: AddressBook,
    b1: AddressBook,
    a: Addr,
    st: ActorStatus,
) -> bool {
    match b0.spec_get(a) {
        Some(o) => {
            &&& frame_except(b0, b1, a)
            &&& b1.spec_get(a) matches Some(o2)
            &&& o2.addr == o.addr
            &&& mailbox_equiv(o.mailbox, o2.mailbox)
            &&& table_equiv(o.request_table, o2.request_table)
            &&& o2.status == (if st.rank() >= o.status.rank() {
                st
            } else {
                o.status
            })
        },
        None => book_equiv(b0, b1),
    }
}

/// The post-receive pipeline's effect: `c0`/`b0` before, `c1`/`b1` after,
/// `e` the envelope taken, `r` the envelope the actor sees.
///
/// A decodable `UpdateConfig` installs the configuration, answers its token
/// with `ConfigOk`, and surfaces `ConfigUpdated`; `Terminate` moves the
/// actor towards Terminating and is still delivered; everything else passes
/// through. The ambient trace id becomes the envelope's.
pub open spec fn post_recv_rel(
    c0: Context,
    c1: Context,
    b0: AddressBook,
    b1: AddressBook,
    e: EnvelopeView,
    r: EnvelopeView,
) -> bool {
    &&& c1.spec_addr() == c0.spec_addr()
    &&& c1.spec_group() == c0.spec_group()
    &&& c1.spec_demux() == c0.spec_demux()
    &&& c1.spec_key() == c0.spec_key()
    &&& c1.spec_source() == c0.spec_source()
    &&& c1.spec_trace_id() == e.trace_id
    &&& match e.message {
        MessageView::UpdateConfig { config } => match decoded_of(config) {
            Some(v) => {
                &&& c1.spec_config() matches Some(cv) && cv@ == v
                &&& r == (EnvelopeView {
                    message: MessageView::ConfigUpdated,
                    kind: MessageKind::Regular { sender: c0.spec_addr() },
                    trace_id: e.trace_id,
                })
                &&& match token_of(e.kind) {
                    Some(t) => responded(
                        b0,
                        b1,
                        t,
                        MessageView::ConfigOk,
                        c0.spec_addr(),
                        e.trace_id,
                    ),
                    None => *&b1 == *&b0,
                }
            },
            None => {
                &&& c1.spec_config() == c0.spec_config()
                &&& r == e
                &&& *&b1 == *&b0
            },
        },
        MessageView::Terminate => {
            &&& c1.spec_config() == c0.spec_config()
            &&& r == e
            &&& status_advanced(b0, b1, c0.spec_addr(), ActorStatus::Terminating)
        },
        _ => {
            &&& c1.spec_config() == c0.spec_config()
            &&& r == e
            &&& *&b1 == *&b0
        },
    }
}

/// One envelope was chosen with deterministic priority: the mailbox first,
/// the attached sources only when the mailbox is open and empty. An
/// initializing actor becomes normal.
pub open spec fn plucked(
    c0: Context,
    b0: AddressBook,
    c1: Context,
    b1: AddressBook,
    e: EnvelopeView,
) -> bool {
    &&& b0.spec_get(c0.spec_addr()) matches Some(o)
    &&& frame_except(b0, b1, c0.spec_addr())
    &&& b1.spec_get(c0.spec_addr()) matches Some(o2)
    &&& o2.addr == o.addr
    &&& table_equiv(o.request_table, o2.request_table)
    &&& o2.status == (if o.status == ActorStatus::Initializing {
        ActorStatus::Normal
    } else {
        o.status
    })
    &&& o2.mailbox.spec_capacity() == o.mailbox.spec_capacity()
    &&& o2.mailbox.spec_closed() == o.mailbox.spec_closed()
    &&& c1.spec_addr() == c0.spec_addr()
    &&& c1.spec_group() == c0.spec_group()
    &&& c1.spec_demux() == c0.spec_demux()
    &&& c1.spec_key() == c0.spec_key()
    &&& c1.spec_config() == c0.spec_config()
    &&& c1.spec_trace_id() == c0.spec_trace_id()
    &&& if o.mailbox.queue().len() > 0 {
        &&& e == o.mailbox.queue()[0]
        &&& o2.mailbox.queue() == o.mailbox.queue().drop_first()
        &&& c1.spec_source() == c0.spec_source()
    } else {
        &&& !o.mailbox.spec_closed()
        &&& c0.spec_source().len() > 0
        &&& e == c0.spec_source()[0]
        &&& c1.spec_source() == c0.spec_source().drop_first()
        &&& o2.mailbox.queue() == o.mailbox.queue()
    }
}

impl Context {
    /// Whether a receive would complete without suspending: something is
    /// queued, or the input has ended. A call that would suspend has no
    /// sequential meaning.
    pub open spec fn recv_ready(self, b: AddressBook) -> bool {
        match b.spec_get(self.spec_addr()) {
            Some(o) => o.mailbox.queue().len() > 0 || o.mailbox.spec_closed()
                || self.spec_source().len() > 0,
            None => true,
        }
    }

    /// The post-receive pipeline applied to every received envelope.
    fn post_recv(&mut self, book: &mut AddressBook, envelope: Envelope) -> (r: Envelope)
        requires
            old(book).wf(),
        ensures
            final(book).wf(),
            post_recv_rel(
                *old(self),
                *final(self),
                *old(book),
                *final(book),
                envelope@,
                r@,
            ),
    {
        let Envelope { message, kind, trace_id } = envelope;
        self.trace_id = trace_id;
        match message {
            Message::UpdateConfig { config } => {
                let crate::config::AnyConfig { blob, decoded } = config;
                let decoded = match decoded {
                    Some(v) => Some(v),
                    None => crate::config::decode_config(&blob),
                };
                match decoded {
                    Some(v) => {
                        self.config = Some(v);
                        match kind {
                            MessageKind::Regular { .. } => {},
                            MessageKind::RequestAny(t) => {
                                if t.is_forgotten() {
                                } else {
                                    let responder = self.addr;
                                    let reply = Envelope::new(
                                        Message::ConfigOk,
                                        MessageKind::Regular { sender: responder },
                                        trace_id,
                                    );
                                    book.respond_at(t, Some(reply));
                                }
                            },
                            MessageKind::RequestAll(t) => {
                                if t.is_forgotten() {
                                } else {
                                    let responder = self.addr;
                                    let reply = Envelope::new(
                                        Message::ConfigOk,
                                        MessageKind::Regular { sender: responder },
                                        trace_id,
                                    );
                                    book.respond_at(t, Some(reply));
                                }
                            },
                        }
                        Envelope::new(
                            Message::ConfigUpdated,
                            MessageKind::Regular { sender: self.addr },
                            trace_id,
                        )
                    },
                    None => Envelope {
                        message: Message::UpdateConfig {
                            config: crate::config::AnyConfig { blob, decoded: None },
                        },
                        kind,
                        trace_id,
                    },
                }
            },
            Message::Terminate => {
                book.set_status_at(self.addr, ActorStatus::Terminating);
                Envelope { message: Message::Terminate, kind, trace_id }
            },
            other => Envelope { message: other, kind, trace_id },
        }
    }

    /// Receives the next envelope: the mailbox first, then the attached
    /// sources — deterministic priority, so system messages cannot be
    /// starved. On end of input the actor turns Terminating, the ambient
    /// trace id is replaced by a fresh one, and `None` is returned.
    pub fn recv(&mut self, book: &mut AddressBook) -> (r: Option<Envelope>)
        requires
            old(book).wf(),
            old(self).recv_ready(*old(book)),
        ensures
            final(book).wf(),
            match old(book).spec_get(old(self).spec_addr()) {
                None => r is None && *final(book) == *old(book) && *final(self) == *old(self),
                Some(o) => {
                    if o.mailbox.queue().len() == 0 && o.mailbox.spec_closed() {
                        &&& r is None
                        &&& status_advanced(
                            *old(book),
                            *final(book),
                            old(self).spec_addr(),
                            ActorStatus::Terminating,
                        )
                        &&& final(self).spec_trace_id() == (if old(self).spec_trace_id() == u64::MAX {
                            0u64
                        } else {
                            (old(self).spec_trace_id() + 1) as u64
                        })
                        &&& final(self).spec_addr() == old(self).spec_addr()
                        &&& final(self).spec_config() == old(self).spec_config()
                        &&& final(self).spec_source() == old(self).spec_source()
                    } else {
                        &&& r matches Some(env)
                        &&& exists|e: EnvelopeView, c_mid: Context, b_mid: AddressBook|
                            #[trigger] plucked(*old(self), *old(book), c_mid, b_mid, e)
                                && post_recv_rel(
                                c_mid,
                                *final(self),
                                b_mid,
                                *final(book),
                                e,
                                env@,
                            )
                    }
                },
            },
    {
        if !book.contains(self.addr) {
            return None;
        }
        match book.status_of(self.addr) {
            Some(ActorStatus::Initializing) => {
                book.set_status_at(self.addr, ActorStatus::Normal);
            },
            _ => {},
        }
        let ghost b_bumped = *book;
        match book.try_recv_at(self.addr) {
            Ok(envelope) => {
                let ghost c_mid = *self;
                let ghost b_mid = *book;
                let ghost e = envelope@;
                let r = self.post_recv(book, envelope);
                proof {
                    assert(plucked(*old(self), *old(book), c_mid, b_mid, e));
                }
                Some(r)
            },
            Err(TryRecvError::Closed) => {
                book.set_status_at(self.addr, ActorStatus::Terminating);
                self.trace_id = if self.trace_id == u64::MAX {
                    0
                } else {
                    self.trace_id + 1
                };
                None
            },
            Err(TryRecvError::Empty) => {
                if self.source.len() > 0 {
                    let envelope = self.source.remove(0);
                    proof {
                        assert(crate::envelope::envelopes_view(self.source@) =~= old(
                            self,
                        ).spec_source().drop_first());
                    }
                    let ghost c_mid = *self;
                    let ghost b_mid = *book;
                    let ghost e = envelope@;
                    let r = self.post_recv(book, envelope);
                    proof {
                        assert(plucked(*old(self), *old(book), c_mid, b_mid, e));
                    }
                    Some(r)
                } else {
                    proof {
                        assert(false);
                    }
                    None
                }
            },
        }
    }

    /// Non-blocking receive: polls only the mailbox. On a closed and drained
    /// mailbox the actor turns Terminating and the trace id is replaced.
    pub fn try_recv(&mut self, book: &mut AddressBook) -> (r: Result<Envelope, TryRecvError>)
        requires
            old(book).wf(),
        ensures
            final(book).wf(),
            match old(book).spec_get(old(self).spec_addr()) {
                None => r == Err::<Envelope, TryRecvError>(TryRecvError::Closed) && *final(book)
                    == *old(book) && *final(self) == *old(self),
                Some(o) => {
                    if o.mailbox.queue().len() > 0 {
                        &&& r matches Ok(env)
                        &&& exists|e: EnvelopeView, c_mid: Context, b_mid: AddressBook|
                            #[trigger] plucked(*old(self), *old(book), c_mid, b_mid, e)
                                && post_recv_rel(
                                c_mid,
                                *final(self),
                                b_mid,
                                *final(book),
                                e,
                                env@,
                            )
                    } else if o.mailbox.spec_closed() {
                        &&& r == Err::<Envelope, TryRecvError>(TryRecvError::Closed)
                        &&& status_advanced(
                            *old(book),
                            *final(book),
                            old(self).spec_addr(),
                            ActorStatus::Terminating,
                        )
                        &&& final(self).spec_trace_id() == (if old(self).spec_trace_id() == u64::MAX {
                            0u64
                        } else {
                            (old(self).spec_trace_id() + 1) as u64
                        })
                        &&& final(self).spec_config() == old(self).spec_config()
                        &&& final(self).spec_source() == old(self).spec_source()
                        &&& final(self).spec_addr() == old(self).spec_addr()
                    } else {
                        &&& r == Err::<Envelope, TryRecvError>(TryRecvError::Empty)
                        &&& final(self).spec_source() == old(self).spec_source()
                        &&& final(self).spec_config() == old(self).spec_config()
                        &&& final(self).spec_trace_id() == old(self).spec_trace_id()
                        &&& status_advanced(
                            *old(book),
                            *final(book),
                            old(self).spec_addr(),
                            ActorStatus::Normal,
                        )
                    }
                },
            },
    {
        if !book.contains(self.addr) {
            return Err(TryRecvError::Closed);
        }
        match book.status_of(self.addr) {
            Some(ActorStatus::Initializing) => {
                book.set_status_at(self.addr, ActorStatus::Normal);
            },
            _ => {},
        }
        match book.try_recv_at(self.addr) {
            Ok(envelope) => {
                let ghost c_mid = *self;
                let ghost b_mid = *book;
                let ghost e = envelope@;
                let r = self.post_recv(book, envelope);
                proof {
                    assert(plucked(*old(self), *old(book), c_mid, b_mid, e));
                }
                Ok(r)
            },
            Err(TryRecvError::Closed) => {
                book.set_status_at(self.addr, ActorStatus::Terminating);
                self.trace_id = if self.trace_id == u64::MAX {
                    0
                } else {
                    self.trace_id + 1
                };
                Err(TryRecvError::Closed)
            },
            Err(TryRecvError::Empty) => Err(TryRecvError::Empty),
        }
    }
}

/// `b1` is `b0` after a live token was consumed with a response envelope
/// wrapped as a regular message from the responder.
pub open spec fn responded(
    b0: AddressBook,
    b1: AddressBook,
    t: ResponseToken,
    message: MessageView,
    responder: Addr,
    trace_id: u64,
) -> bool {
    let e = EnvelopeView { message, kind: MessageKind::Regular { sender: responder }, trace_id };
    match b0.spec_get(t.sender) {
        Some(o) => {
            &&& frame_except(b0, b1, t.sender)
            &&& b1.spec_get(t.sender) matches Some(o2)
            &&& o2.addr == o.addr
            &&& mailbox_equiv(o.mailbox, o2.mailbox)
            &&& o2.status == o.status
            &&& o2.request_table.next_id() == o.request_table.next_id()
            &&& match o.request_table.slot(t.request_id as int) {
                Some(s) => {
                    if s.outstanding == 0 {
                        o2.request_table.slot(t.request_id as int) == Some(s)
                    } else if s.multi {
                        o2.request_table.slot(t.request_id as int) == Some(
                            SlotView {
                                outstanding: (s.outstanding - 1) as nat,
                                responses: s.responses.push(Some(e)),
                                ..s
                            },
                        )
                    } else if !s.done {
                        o2.request_table.slot(t.request_id as int) == Some(
                            SlotView {
                                outstanding: (s.outstanding - 1) as nat,
                                responses: seq![Some(e)],
                                done: true,
                                ..s
                            },
                        )
                    } else {
                        o2.request_table.slot(t.request_id as int) == Some(
                            SlotView { outstanding: (s.outstanding - 1) as nat, ..s },
                        )
                    }
                },
                None => table_equiv(o.request_table, o2.request_table),
            }
            &&& forall|id: int|
                id != t.request_id ==> #[trigger] o2.request_table.slot(id)
                    == o.request_table.slot(id)
        },
        None => book_equiv(b0, b1),
    }
}


/// Releasing a token still relates two books when an observably neutral
/// step stands before it.
pub proof fn lemma_released_after_equiv(
    b0: AddressBook,
    b1: AddressBook,
    b2: AddressBook,
    t: ResponseToken,
)
    requires
        book_equiv(b0, b1),
        token_released(b1, b2, t),
    ensures
        token_released(b0, b2, t),
{
    if t.sender.spec_is_local() {
        assert(entry_equiv(b0.entry_at(t.sender.spec_slot() as int), b1.entry_at(
            t.sender.spec_slot() as int,
        )));
    }
    match b0.spec_get(t.sender) {
        Some(o) => {
            assert forall|i: int| i != t.sender.spec_slot() implies #[trigger] entry_equiv(
                b0.entry_at(i),
                b2.entry_at(i),
            ) by {
                assert(entry_equiv(b0.entry_at(i), b1.entry_at(i)));
                assert(entry_equiv(b1.entry_at(i), b2.entry_at(i)));
            }
        },
        None => {
            assert forall|i: int| #[trigger] entry_equiv(b0.entry_at(i), b2.entry_at(i)) by {
                assert(entry_equiv(b0.entry_at(i), b1.entry_at(i)));
                assert(entry_equiv(b1.entry_at(i), b2.entry_at(i)));
            }
        },
    }
}

/// An observably neutral step keeps liveness.
pub proof fn lemma_liveness_from_equiv(b0: AddressBook, b1: AddressBook, b2: AddressBook)
    requires
        same_liveness(b0, b1),
        book_equiv(b1, b2),
    ensures
        same_liveness(b0, b2),
{
    assert forall|i: int|
        match (#[trigger] b0.entry_at(i), #[trigger] b2.entry_at(i)) {
            (Some(o), Some(o2)) => o2.mailbox.spec_closed() == o.mailbox.spec_closed(),
            (None, None) => true,
            _ => false,
        } by {
        assert(entry_equiv(b1.entry_at(i), b2.entry_at(i)));
    }
}

/// A book step that keeps presence and liveness can be chained under
/// `same_liveness`.
pub proof fn lemma_liveness_step(b0: AddressBook, b1: AddressBook, b2: AddressBook, a: Addr)
    requires
        same_liveness(b0, b1),
        frame_except(b1, b2, a),
        b1.spec_get(a) matches Some(o),
        b2.spec_get(a) matches Some(o2),
        b2.spec_get(a).unwrap().mailbox.spec_closed() == b1.spec_get(
            a,
        ).unwrap().mailbox.spec_closed(),
    ensures
        same_liveness(b0, b2),
{
    assert forall|i: int|
        match (#[trigger] b0.entry_at(i), #[trigger] b2.entry_at(i)) {
            (Some(o), Some(o2)) => o2.mailbox.spec_closed() == o.mailbox.spec_closed(),
            (None, None) => true,
            _ => false,
        } by {
        if i != a.spec_slot() {
            assert(entry_equiv(b1.entry_at(i), b2.entry_at(i)));
        }
    }
}

pub proof fn lemma_liveness_refl(b0: AddressBook)
    ensures
        same_liveness(b0, b0),
{
}

/// Liveness of any address is preserved under `same_liveness`.
pub proof fn lemma_live_same(b0: AddressBook, b1: AddressBook, a: Addr)
    requires
        same_liveness(b0, b1),
    ensures
        live(b0, a) == live(b1, a),
{
    if a.spec_is_local() {
        assert(match (b0.entry_at(a.spec_slot() as int), b1.entry_at(a.spec_slot() as int)) {
            (Some(o), Some(o2)) => o2.mailbox.spec_closed() == o.mailbox.spec_closed(),
            (None, None) => true,
            _ => false,
        });
    }
}

/// What issuing a request does to the book: the caller's table gained a
/// fresh slot with one live token, `t`.
pub open spec fn request_issued(
    b0: AddressBook,
    b1: AddressBook,
    a: Addr,
    multi: bool,
    t: ResponseToken,
) -> bool {
    &&& b0.spec_get(a) matches Some(o)
    &&& b0.updated(b1, a)
    &&& b1.spec_get(a) matches Some(o2)
    &&& o2.addr == o.addr
    &&& o2.mailbox == o.mailbox
    &&& o2.status == o.status
    &&& !t.forgotten
    &&& t.multi == multi
    &&& t.sender == a
    &&& t.request_id == o.request_table.next_id()
    &&& o2.request_table.next_id() == o.request_table.next_id() + 1
    &&& o2.request_table.slot(t.request_id as int) == Some(
        SlotView {
            multi,
            outstanding: 1,
            responses: Seq::<Option<EnvelopeView>>::empty(),
            done: false,
            issued: 1,
        },
    )
    &&& forall|id: int|
        id != t.request_id ==> #[trigger] o2.request_table.slot(id) == o.request_table.slot(id)
}

/// How a request is being resolved after dispatch.
#[derive(Debug, PartialEq)]
pub enum ResolveOutcome {
    /// The request could not be delivered; the message comes back.
    Closed(Message),
    /// A forgotten request resolves immediately after dispatch.
    Ignored,
    /// Delivered; await the correlated slot under this request id.
    Pending(usize),
}

/// Whether the request collects the first response, every response, or none.
#[derive(Clone, Copy, PartialEq, Eq, Structural, Debug)]
pub enum RequestMode {
    Any,
    All,
    Forgotten,
}

/// Builds a request: optionally a fixed recipient, and a mode.
#[derive(Debug)]
pub struct RequestBuilder<'c> {
    context: &'c Context,
    request: Message,
    from: Option<Addr>,
    mode: RequestMode,
}

impl<'c> RequestBuilder<'c> {
    pub closed spec fn spec_context(self) -> Context {
        *self.context
    }

    pub closed spec fn spec_request(self) -> MessageView {
        self.request@
    }

    pub closed spec fn spec_from(self) -> Option<Addr> {
        self.from
    }

    pub closed spec fn spec_mode(self) -> RequestMode {
        self.mode
    }
}

impl Context {
    /// Starts a request that resolves on the first response.
    pub fn request(&self, request: Message) -> (b: RequestBuilder<'_>)
        ensures
            b.spec_context() == *self,
            b.spec_request() == request@,
            b.spec_from() is None,
            b.spec_mode() == RequestMode::Any,
    {
        RequestBuilder { context: self, request, from: None, mode: RequestMode::Any }
    }

    /// Sends through the demux under a regular kind. The result is Ok when
    /// at least one delivery succeeded; an empty recipient set or a total
    /// failure returns the original message in `Closed`.
    pub fn send(&self, book: &mut AddressBook, message: Message) -> (r: Result<
        (),
        SendError<Message>,
    >)
        requires
            old(book).wf(),
        ensures
            final(book).wf(),
            ({
                let recips = spec_filter(self.spec_demux().subs(), message@.ltid());
                let kind = MessageKind::Regular { sender: self.spec_addr() };
                &&& (recips.len() == 0 ==> (r matches Err(SendError(m)) && m@ == message@
                    && *final(book) == *old(book)))
                &&& (recips.len() == 1 ==> match r {
                    Ok(()) => live(*old(book), recips[0]) && delivered(
                        *old(book),
                        *final(book),
                        recips[0],
                        message@,
                        kind,
                        self.spec_trace_id(),
                    ),
                    Err(SendError(m)) => !live(*old(book), recips[0]) && m@ == message@
                        && book_equiv(*old(book), *final(book)),
                })
                &&& (recips.len() >= 2 ==> {
                    &&& (r is Ok <==> exists|i: int|
                        0 <= i < recips.len() && live(*old(book), #[trigger] recips[i]))
                    &&& (r matches Err(SendError(m)) ==> m@ == message@)
                    &&& same_liveness(*old(book), *final(book))
                })
            }),
    {
        let kind = MessageKind::Regular { sender: self.addr };
        self.do_send(book, message, kind)
    }

    /// Classifies recipients through the demux and delivers one envelope to
    /// each, duplicating the payload; request kinds duplicate their token so
    /// every delivered envelope can answer.
    fn do_send(&self, book: &mut AddressBook, message: Message, kind: MessageKind) -> (r: Result<
        (),
        SendError<Message>,
    >)
        requires
            old(book).wf(),
            match token_of(kind) {
                Some(t) => old(book).spec_get(t.sender) matches Some(o) && (
                o.request_table.slot(t.request_id as int) matches Some(s) && s.outstanding
                    + spec_filter(self.spec_demux().subs(), message@.ltid()).len() + 1
                    <= usize::MAX),
                None => true,
            },
        ensures
            final(book).wf(),
            ({
                let recips = spec_filter(self.spec_demux().subs(), message@.ltid());
                &&& (recips.len() == 0 ==> (r matches Err(SendError(m)) && m@ == message@ && match
                    token_of(kind) {
                    Some(t) => token_released(*old(book), *final(book), t),
                    None => *final(book) == *old(book),
                }))
                &&& (recips.len() == 1 ==> match r {
                    Ok(()) => live(*old(book), recips[0]) && delivered(
                        *old(book),
                        *final(book),
                        recips[0],
                        message@,
                        kind,
                        self.spec_trace_id(),
                    ),
                    Err(SendError(m)) => !live(*old(book), recips[0]) && m@ == message@ && match
                    token_of(kind) {
                        Some(t) => token_released(*old(book), *final(book), t),
                        None => book_equiv(*old(book), *final(book)),
                    },
                })
                &&& (recips.len() >= 2 ==> {
                    &&& (r is Ok <==> exists|i: int|
                        0 <= i < recips.len() && live(*old(book), #[trigger] recips[i]))
                    &&& (r matches Err(SendError(m)) ==> m@ == message@)
                    &&& same_liveness(*old(book), *final(book))
                })
            }),
    {
        let envelope = Envelope::new(message, kind, self.trace_id);
        let addrs = self.demux.filter(&envelope);
        if addrs.len() == 0 {
            let Envelope { message, kind, trace_id: _ } = envelope;
            release_envelope_token(book, kind);
            return Err(SendError(message));
        }
        if addrs.len() == 1 {
            let target = addrs[0];
            let ghost b0 = *old(book);
            return match book.send_at(target, envelope) {
                Ok(()) => {
                    proof {
                        crate::book::lemma_frame_from_updated(b0, *book, target);
                    }
                    Ok(())
                },
                Err(SendError(e)) => {
                    let ghost b_mid = *book;
                    proof {
                        if b0.spec_get(target) is Some {
                            assert forall|i: int| #[trigger] entry_equiv(
                                b0.entry_at(i),
                                b_mid.entry_at(i),
                            ) by {
                                if i != target.spec_slot() {
                                    assert(b_mid.entry_at(i) == b0.entry_at(i));
                                }
                            }
                            assert(book_equiv(b0, b_mid));
                        } else {
                            assert(b_mid == b0);
                            assert forall|i: int| #[trigger] entry_equiv(
                                b0.entry_at(i),
                                b_mid.entry_at(i),
                            ) by {}
                            assert(book_equiv(b0, b_mid));
                        }
                    }
                    let Envelope { message, kind, trace_id: _ } = e;
                    release_envelope_token(book, kind);
                    proof {
                        match token_of(kind) {
                            Some(t) => {
                                lemma_released_after_equiv(b0, b_mid, *book, t);
                            },
                            None => {
                                assert(*book == b_mid);
                            },
                        }
                    }
                    Err(SendError(message))
                },
            };
        }
        let ghost b0 = *old(book);
        let ghost recips = addrs@;
        let mut success = false;
        let mut k: usize = 0;
        proof {
            lemma_liveness_refl(b0);
            crate::demux::lemma_filter_distinct(self.spec_demux().subs(), message@.ltid());
        }
        while k < addrs.len()
            invariant
                old(book).wf(),
                book.wf(),
                k <= addrs@.len(),
                addrs@ == recips,
                recips == spec_filter(self.spec_demux().subs(), message@.ltid()),
                recips.len() >= 2,
                envelope@.message == message@,
                envelope@.kind == kind,
                same_liveness(b0, *book),
                b0 == *old(book),
                success == exists|i: int| 0 <= i < k && live(b0, #[trigger] recips[i]),
                match token_of(kind) {
                    Some(t) => book.spec_get(t.sender) matches Some(o) && (o.request_table.slot(
                        t.request_id as int,
                    ) matches Some(s) && s.outstanding + (recips.len() - k) + 1 <= usize::MAX),
                    None => true,
                },
            decreases addrs@.len() - k,
        {
            let ghost b_before = *book;
            let copy = match book.duplicate(&envelope) {
                Some(c) => c,
                None => unreached(),
            };
            let ghost b_dup = *book;
            proof {
                match token_of(kind) {
                    Some(t) => {
                        assert(token_of(copy@.kind) matches Some(t2) && t2.sender == t.sender
                            && t2.request_id == t.request_id && t2.multi == t.multi);
                        crate::book::lemma_frame_from_updated(b_before, b_dup, t.sender);
                        lemma_liveness_step(b0, b_before, b_dup, t.sender);
                    },
                    None => {
                        assert(b_dup == b_before);
                        assert(token_of(copy@.kind) is None);
                    },
                }
            }
            let target = addrs[k];
            let delivered_now = book.try_deliver(target, copy);
            proof {
                if delivered_now {
                    lemma_liveness_step(b0, b_dup, *book, target);
                } else {
                    match token_of(copy@.kind) {
                        Some(t) => {
                            if b_dup.spec_get(t.sender) is Some {
                                lemma_liveness_step(b0, b_dup, *book, t.sender);
                            } else {
                                lemma_liveness_from_equiv(b0, b_dup, *book);
                            }
                        },
                        None => {
                            lemma_liveness_from_equiv(b0, b_dup, *book);
                        },
                    }
                }
                lemma_live_same(b0, b_dup, target);
                assert(delivered_now == live(b0, recips[k as int]));
                match token_of(kind) {
                    Some(t) => {
                        if delivered_now && target != t.sender {
                            if target.spec_is_local() && t.sender.spec_is_local()
                                && target.spec_slot() == t.sender.spec_slot() {
                                crate::addr::lemma_local_addrs_injective(target, t.sender);
                            }
                            assert(entry_equiv(
                                b_dup.entry_at(t.sender.spec_slot() as int),
                                book.entry_at(t.sender.spec_slot() as int),
                            ));
                        }
                        assert(book.spec_get(t.sender) is Some);
                        let s_dup =
                            b_dup.spec_get(t.sender).unwrap().request_table.slot(
                            t.request_id as int,
                        ).unwrap();
                        let s_now =
                            book.spec_get(t.sender).unwrap().request_table.slot(
                            t.request_id as int,
                        ).unwrap();
                        assert(s_now.outstanding <= s_dup.outstanding);
                    },
                    None => {},
                }
            }
            if delivered_now {
                success = true;
            }
            k = k + 1;
        }
        let Envelope { message, kind, trace_id: _ } = envelope;
        let ghost b_end = *book;
        release_envelope_token(book, kind);
        proof {
            match token_of(kind) {
                Some(t) => {
                    lemma_liveness_step(b0, b_end, *book, t.sender);
                },
                None => {
                    assert(*book == b_end);
                },
            }
        }
        if success {
            Ok(())
        } else {
            Err(SendError(message))
        }
    }
}

/// Returns the token inside a kind, if it is live; used when an envelope is
/// dropped undelivered.
fn release_envelope_token(book: &mut AddressBook, kind: MessageKind)
    requires
        old(book).wf(),
    ensures
        final(book).wf(),
        match token_of(kind) {
            Some(t) => token_released(*old(book), *final(book), t),
            None => *final(book) == *old(book),
        },
{
    match kind {
        MessageKind::Regular { .. } => {},
        MessageKind::RequestAny(t) => {
            if !t.is_forgotten() {
                book.release_at(t);
            }
        },
        MessageKind::RequestAll(t) => {
            if !t.is_forgotten() {
                book.release_at(t);
            }
        },
    }
}

impl AddressBook {
    /// Blocking delivery that reports success as a flag and releases the
    /// token of an undeliverable envelope.
    fn try_deliver(&mut self, a: Addr, envelope: Envelope) -> (r: bool)
        requires
            old(self).wf(),
        ensures
            final(self).wf(),
            r == live(*old(self), a),
            if r {
                delivered(
                    *old(self),
                    *final(self),
                    a,
                    envelope@.message,
                    envelope@.kind,
                    envelope@.trace_id,
                )
            } else {
                match token_of(envelope@.kind) {
                    Some(t) => token_released(*old(self), *final(self), t),
                    None => book_equiv(*old(self), *final(self)),
                }
            },
    {
        let ghost b0 = *old(self);
        match self.send_at(a, envelope) {
            Ok(()) => {
                proof {
                    crate::book::lemma_frame_from_updated(b0, *self, a);
                }
                true
            },
            Err(SendError(e)) => {
                let ghost b_mid = *self;
                proof {
                    if b0.spec_get(a) is Some {
                        assert forall|i: int| #[trigger] entry_equiv(
                            b0.entry_at(i),
                            b_mid.entry_at(i),
                        ) by {
                            if i != a.spec_slot() {
                                assert(b_mid.entry_at(i) == b0.entry_at(i));
                            }
                        }
                        assert(book_equiv(b0, b_mid));
                    } else {
                        assert(b_mid == b0);
                        assert forall|i: int| #[trigger] entry_equiv(
                            b0.entry_at(i),
                            b_mid.entry_at(i),
                        ) by {}
                        assert(book_equiv(b0, b_mid));
                    }
                }
                let Envelope { message: _, kind, trace_id: _ } = e;
                release_envelope_token(self, kind);
                proof {
                    match token_of(kind) {
                        Some(t) => {
                            lemma_released_after_equiv(b0, b_mid, *self, t);
                        },
                        None => {
                            assert(*self == b_mid);
                        },
                    }
                }
                false
            },
        }
    }
}


/// `request_issued`, taking the builder mode directly.
pub open spec fn request_issued_mode(
    b0: AddressBook,
    b1: AddressBook,
    a: Addr,
    mode: RequestMode,
    t: ResponseToken,
) -> bool {
    request_issued(b0, b1, a, mode == RequestMode::All, t)
}

/// The kind a request of this mode travels under.
pub open spec fn kind_for(mode: RequestMode, t: ResponseToken) -> MessageKind {
    if mode == RequestMode::All {
        MessageKind::RequestAll(t)
    } else {
        MessageKind::RequestAny(t)
    }
}

/// The effect of dispatching `message` under `kind`: either to the fixed
/// recipient, or through the demux. `ok` says whether any delivery
/// succeeded.
pub open spec fn dispatched(
    c: Context,
    b1: AddressBook,
    b2: AddressBook,
    message: MessageView,
    kind: MessageKind,
    from: Option<Addr>,
    ok: bool,
) -> bool {
    match from {
        Some(x) => if ok {
            live(b1, x) && delivered(b1, b2, x, message, kind, c.spec_trace_id())
        } else {
            !live(b1, x) && match token_of(kind) {
                Some(t) => token_released(b1, b2, t),
                None => book_equiv(b1, b2),
            }
        },
        None => {
            let recips = spec_filter(c.spec_demux().subs(), message.ltid());
            if recips.len() == 0 {
                !ok && match token_of(kind) {
                    Some(t) => token_released(b1, b2, t),
                    None => b2 == b1,
                }
            } else if recips.len() == 1 {
                if ok {
                    live(b1, recips[0]) && delivered(b1, b2, recips[0], message, kind, c.spec_trace_id())
                } else {
                    !live(b1, recips[0]) && match token_of(kind) {
                        Some(t) => token_released(b1, b2, t),
                        None => book_equiv(b1, b2),
                    }
                }
            } else {
                &&& (ok <==> exists|i: int| 0 <= i < recips.len() && live(b1, #[trigger] recips[i]))
                &&& same_liveness(b1, b2)
            }
        },
    }
}

impl<'c> RequestBuilder<'c> {
    /// Collect every response instead of the first.
    pub fn all(self) -> (b: RequestBuilder<'c>)
        ensures
            b.spec_context() == self.spec_context(),
            b.spec_request() == self.spec_request(),
            b.spec_from() == self.spec_from(),
            b.spec_mode() == RequestMode::All,
    {
        RequestBuilder { mode: RequestMode::All, ..self }
    }

    /// Dispatch only; the response is discarded by the responders.
    pub fn forgotten(self) -> (b: RequestBuilder<'c>)
        ensures
            b.spec_context() == self.spec_context(),
            b.spec_request() == self.spec_request(),
            b.spec_from() == self.spec_from(),
            b.spec_mode() == RequestMode::Forgotten,
    {
        RequestBuilder { mode: RequestMode::Forgotten, ..self }
    }

    /// Bypass the demux: send the request to this recipient.
    pub fn from(self, addr: Addr) -> (b: RequestBuilder<'c>)
        ensures
            b.spec_context() == self.spec_context(),
            b.spec_request() == self.spec_request(),
            b.spec_from() == Some(addr),
            b.spec_mode() == self.spec_mode(),
    {
        RequestBuilder { from: Some(addr), ..self }
    }

    /// Allocates the response slot, dispatches the request, and reports how
    /// to await it: `Pending` carries the fresh request id to wait on,
    /// `Closed` hands the message back after a total delivery failure, and a
    /// forgotten request resolves to `Ignored` right after dispatch.
    pub fn resolve(self, book: &mut AddressBook) -> (r: ResolveOutcome)
        requires
            old(book).wf(),
            self.spec_mode() != RequestMode::Forgotten ==> old(book).spec_get(
                self.spec_context().spec_addr(),
            ) is Some,
            self.spec_from() is None ==> spec_filter(
                self.spec_context().spec_demux().subs(),
                self.spec_request().ltid(),
            ).len() + 2 <= usize::MAX,
        ensures
            final(book).wf(),
            match r {
                ResolveOutcome::Pending(id) => {
                    &&& self.spec_mode() != RequestMode::Forgotten
                    &&& old(book).spec_get(self.spec_context().spec_addr()) matches Some(o) && id
                        == o.request_table.next_id()
                    &&& exists|b_mid: AddressBook, t: ResponseToken|
                        {
                            &&& #[trigger] request_issued_mode(
                                *old(book),
                                b_mid,
                                self.spec_context().spec_addr(),
                                self.spec_mode(),
                                t,
                            )
                            &&& t.request_id == id
                            &&& dispatched(
                                self.spec_context(),
                                b_mid,
                                *final(book),
                                self.spec_request(),
                                kind_for(self.spec_mode(), t),
                                self.spec_from(),
                                true,
                            )
                        }
                },
                ResolveOutcome::Closed(m) => {
                    &&& m@ == self.spec_request()
                    &&& if self.spec_mode() == RequestMode::Forgotten {
                        exists|t: ResponseToken|
                            t.forgotten && #[trigger] dispatched(
                                self.spec_context(),
                                *old(book),
                                *final(book),
                                self.spec_request(),
                                MessageKind::RequestAny(t),
                                self.spec_from(),
                                false,
                            )
                    } else {
                        exists|b_mid: AddressBook, t: ResponseToken|
                            {
                                &&& #[trigger] request_issued_mode(
                                    *old(book),
                                    b_mid,
                                    self.spec_context().spec_addr(),
                                    self.spec_mode(),
                                    t,
                                )
                                &&& dispatched(
                                    self.spec_context(),
                                    b_mid,
                                    *final(book),
                                    self.spec_request(),
                                    kind_for(self.spec_mode(), t),
                                    self.spec_from(),
                                    false,
                                )
                            }
                    }
                },
                ResolveOutcome::Ignored => {
                    &&& self.spec_mode() == RequestMode::Forgotten
                    &&& exists|t: ResponseToken|
                        t.forgotten && #[trigger] dispatched(
                            self.spec_context(),
                            *old(book),
                            *final(book),
                            self.spec_request(),
                            MessageKind::RequestAny(t),
                            self.spec_from(),
                            true,
                        )
                },
            },
    {
        let RequestBuilder { context, request, from, mode } = self;
        match mode {
            RequestMode::Forgotten => {
                let token = ResponseToken::forgotten_token();
                let ghost tv = token;
                let kind = MessageKind::RequestAny(token);
                let sent = match from {
                    Some(x) => context.do_send_to(book, x, request, kind),
                    None => context.do_send(book, request, kind),
                };
                match sent {
                    Ok(()) => {
                        proof {
                            assert(tv.forgotten && dispatched(
                                *context,
                                *old(book),
                                *book,
                                self.spec_request(),
                                MessageKind::RequestAny(tv),
                                from,
                                true,
                            ));
                        }
                        ResolveOutcome::Ignored
                    },
                    Err(SendError(m)) => {
                        proof {
                            assert(tv.forgotten && dispatched(
                                *context,
                                *old(book),
                                *book,
                                self.spec_request(),
                                MessageKind::RequestAny(tv),
                                from,
                                false,
                            ));
                        }
                        ResolveOutcome::Closed(m)
                    },
                }
            },
            RequestMode::Any | RequestMode::All => {
                let multi = match mode {
                    RequestMode::All => true,
                    _ => false,
                };
                let token = match book.new_request_at(context.addr(), multi) {
                    Some(t) => t,
                    None => unreached(),
                };
                let id = token.request_id;
                let ghost tv = token;
                let ghost b_mid = *book;
                let kind = if multi {
                    MessageKind::RequestAll(token)
                } else {
                    MessageKind::RequestAny(token)
                };
                let sent = match from {
                    Some(x) => context.do_send_to(book, x, request, kind),
                    None => context.do_send(book, request, kind),
                };
                match sent {
                    Ok(()) => {
                        proof {
                            assert(kind == kind_for(self.spec_mode(), tv));
                            assert(request_issued_mode(
                                *old(book),
                                b_mid,
                                self.spec_context().spec_addr(),
                                self.spec_mode(),
                                tv,
                            ) && tv.request_id == id && dispatched(
                                self.spec_context(),
                                b_mid,
                                *book,
                                self.spec_request(),
                                kind_for(self.spec_mode(), tv),
                                from,
                                true,
                            ));
                        }
                        ResolveOutcome::Pending(id)
                    },
                    Err(SendError(m)) => {
                        proof {
                            assert(kind == kind_for(self.spec_mode(), tv));
                            assert(request_issued_mode(
                                *old(book),
                                b_mid,
                                self.spec_context().spec_addr(),
                                self.spec_mode(),
                                tv,
                            ) && dispatched(
                                self.spec_context(),
                                b_mid,
                                *book,
                                self.spec_request(),
                                kind_for(self.spec_mode(), tv),
                                from,
                                false,
                            ));
                        }
                        ResolveOutcome::Closed(m)
                    },
                }
            },
        }
    }
}

impl Context {
    /// Yields the single-response result once the slot completed: the first
    /// response wins, an entirely absent collection means every recipient
    /// dropped its token. `None` while the response is still owed.
    pub fn take_any(&self, book: &mut AddressBook, request_id: usize) -> (r: Option<
        Result<Message, RequestError<Message>>,
    >)
        requires
            old(book).wf(),
        ensures
            final(book).wf(),
            match old(book).spec_get(self.spec_addr()) {
                Some(o) => match o.request_table.slot(request_id as int) {
                    Some(s) => if s.complete() {
                        &&& r matches Some(res)
                        &&& (s.responses.len() >= 1 && s.responses[0] is Some ==> (
                        res matches Ok(m) && m@ == s.responses[0].unwrap().message))
                        &&& (s.responses.len() == 0 ==> res matches Err(RequestError::Ignored))
                        &&& old(book).updated(*final(book), self.spec_addr())
                        &&& final(book).spec_get(self.spec_addr()) matches Some(o2)
                        &&& o2.request_table.slot(request_id as int) is None
                        &&& o2.mailbox == o.mailbox
                        &&& o2.status == o.status
                        &&& forall|id: int|
                            id != request_id ==> #[trigger] o2.request_table.slot(id)
                                == o.request_table.slot(id)
                    } else {
                        r is None && old(book).same_entries(*final(book))
                    },
                    None => r is None && old(book).same_entries(*final(book)),
                },
                None => r is None && *final(book) == *old(book),
            },
    {
        let r = match book.wait_at(self.addr, request_id) {
            Some(mut responses) => {
                let ghost rv = crate::request_table::responses_view(responses@);
                if responses.len() >= 1 {
                    let ghost prev = responses@;
                    let first = responses.remove(0);
                    proof {
                        assert(first == prev[0]);
                        assert(rv[0] == crate::request_table::responses_view(prev)[0]);
                        match &first {
                            Some(e) => {
                                assert(rv[0] == Some(e@));
                            },
                            None => {
                                assert(rv[0] is None);
                            },
                        }
                    }
                    match first {
                        Some(envelope) => {
                            let Envelope { message, kind, trace_id: _ } = envelope;
                            Some(Ok(message))
                        },
                        None => Some(Err(RequestError::Ignored)),
                    }
                } else {
                    Some(Err(RequestError::Ignored))
                }
            },
            None => {
                proof {
                    lemma_same_entries_after_noop(*old(book), *book, self.spec_addr());
                }
                None
            },
        };
        r
    }

    /// Yields the fan-out results once the slot completed: one entry per
    /// token that reached a recipient, in completion order; an absent entry
    /// means the recipient dropped its token. `None` while responses are
    /// still owed.
    pub fn take_all(&self, book: &mut AddressBook, request_id: usize) -> (r: Option<
        Vec<Result<Message, RequestError<Message>>>,
    >)
        requires
            old(book).wf(),
        ensures
            final(book).wf(),
            match old(book).spec_get(self.spec_addr()) {
                Some(o) => match o.request_table.slot(request_id as int) {
                    Some(s) => if s.complete() {
                        &&& r matches Some(v)
                        &&& v@.len() == s.responses.len()
                        &&& forall|i: int|
                            0 <= i < v@.len() ==> match (#[trigger] v@[i], s.responses[i]) {
                                (Ok(m), Some(e)) => m@ == e.message,
                                (Err(RequestError::Ignored), None) => true,
                                _ => false,
                            }
                        &&& old(book).updated(*final(book), self.spec_addr())
                        &&& final(book).spec_get(self.spec_addr()) matches Some(o2)
                        &&& o2.request_table.slot(request_id as int) is None
                        &&& o2.mailbox == o.mailbox
                        &&& o2.status == o.status
                        &&& forall|id: int|
                            id != request_id ==> #[trigger] o2.request_table.slot(id)
                                == o.request_table.slot(id)
                    } else {
                        r is None && old(book).same_entries(*final(book))
                    },
                    None => r is None && old(book).same_entries(*final(book)),
                },
                None => r is None && *final(book) == *old(book),
            },
    {
        let r = match book.wait_at(self.addr, request_id) {
            Some(responses) => {
                let ghost rv = crate::request_table::responses_view(responses@);
                let mut out: Vec<Result<Message, RequestError<Message>>> = Vec::new();
                let mut responses = responses;
                let mut k: usize = 0;
                let n = responses.len();
                while k < n
                    invariant
                        k <= n,
                        n == rv.len(),
                        responses@.len() == n - k,
                        crate::request_table::responses_view(responses@) == rv.subrange(
                            k as int,
                            n as int,
                        ),
                        out@.len() == k,
                        forall|i: int|
                            0 <= i < k ==> match (#[trigger] out@[i], rv[i]) {
                                (Ok(m), Some(e)) => m@ == e.message,
                                (Err(RequestError::Ignored), None) => true,
                                _ => false,
                            },
                    decreases n - k,
                {
                    let ghost prev = responses@;
                    let first = responses.remove(0);
                    proof {
                        assert(first == prev[0]);
                        assert(crate::request_table::responses_view(prev)[0] == rv.subrange(
                            k as int,
                            n as int,
                        )[0]);
                        assert forall|j: int| 0 <= j < responses@.len() implies
                            crate::request_table::responses_view(responses@)[j] == rv.subrange(
                            k as int + 1,
                            n as int,
                        )[j] by {
                            assert(responses@[j] == prev[j + 1]);
                            assert(crate::request_table::responses_view(prev)[j + 1] == rv.subrange(
                                k as int,
                                n as int,
                            )[j + 1]);
                        }
                        assert(crate::request_table::responses_view(responses@) =~= rv.subrange(
                            k as int + 1,
                            n as int,
                        ));
                        match &first {
                            Some(e) => {
                                assert(rv[k as int] == Some(e@));
                            },
                            None => {
                                assert(rv[k as int] is None);
                            },
                        }
                    }
                    match first {
                        Some(envelope) => {
                            let Envelope { message, kind, trace_id: _ } = envelope;
                            out.push(Ok(message));
                        },
                        None => {
                            out.push(Err(RequestError::Ignored));
                        },
                    }
                    k = k + 1;
                }
                Some(out)
            },
            None => {
                proof {
                    lemma_same_entries_after_noop(*old(book), *book, self.spec_addr());
                }
                None
            },
        };
        r
    }
}

/// `request(r).from(x).resolve()` equals `send_to(x, r)` followed by one
/// wait on the correlated token: the dispatch deposits into `x`'s mailbox
/// exactly the envelope `send_to` would — only the kind carries the token in
/// place of the plain sender — and once the recipient responds through that
/// token, the correlated slot completes with exactly that response, which
/// the single-response wait yields.
pub proof fn lemma_request_from_equals_send_then_wait(
    c: Context,
    b0: AddressBook,
    b_mid: AddressBook,
    b2: AddressBook,
    x: Addr,
    m: MessageView,
    t: ResponseToken,
    reply: EnvelopeView,
)
    requires
        request_issued(b0, b_mid, c.spec_addr(), false, t),
        dispatched(c, b_mid, b2, m, MessageKind::RequestAny(t), Some(x), true),
    ensures
        delivered(b_mid, b2, x, m, MessageKind::RequestAny(t), c.spec_trace_id()),
        b_mid.spec_get(c.spec_addr()).unwrap().request_table.slot(t.request_id as int) == Some(
            SlotView {
                multi: false,
                outstanding: 1,
                responses: Seq::<Option<EnvelopeView>>::empty(),
                done: false,
                issued: 1,
            },
        ),
        ({
            let after = SlotView {
                multi: false,
                outstanding: 0,
                responses: seq![Some(reply)],
                done: true,
                issued: 1,
            };
            after.complete() && after.responses.len() == 1 && after.responses[0] == Some(reply)
        }),
{
}

/// After an operation that left the actor behind `a` with the same fields,
/// the whole book kept its entries.
proof fn lemma_same_entries_after_noop(b0: AddressBook, b1: AddressBook, a: Addr)
    requires
        b1.spec_len() == b0.spec_len() || b1 == b0,
        b1 == b0 || (b0.updated(b1, a) && (match (b0.spec_get(a), b1.spec_get(a)) {
            (Some(o), Some(o2)) => o2 == o,
            (None, None) => true,
            _ => false,
        })),
    ensures
        b0.same_entries(b1),
{
    if b1 == b0 {
        assert forall|i: int| #[trigger] b1.entry_at(i) == b0.entry_at(i) by {}
    } else {
        assert forall|i: int| #[trigger] b1.entry_at(i) == b0.entry_at(i) by {
            if i != a.spec_slot() {
            } else {
                if b0.spec_get(a) is Some {
                } else {
                }
            }
        }
    }
}

} // verus!
