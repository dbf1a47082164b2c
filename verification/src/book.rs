//! The process-wide address book: a directory from addresses to live actor
//! objects, with atomic reservation of an address before the actor exists.
//!
//! A lookup never yields an entry for an address that was not reserved, and
//! remote addresses fail fast. The book exposes targeted operations on the
//! actor behind an address (mailbox sends, table updates, status changes);
//! all of them leave every other entry untouched.

use vstd::prelude::*;

use crate::addr::Addr;
use crate::envelope::{Envelope, MessageKind, ResponseToken};
use crate::errors::{SendError, TryRecvError, TrySendError};
use crate::mailbox::Mailbox;
use crate::request_table::RequestTable;

verus! {

/// Lifecycle of an actor. Only forward transitions are permitted.
#[derive(Clone, Copy, PartialEq, Eq, Structural, Debug)]
pub enum ActorStatus {
    Initializing,
    Normal,
    Terminating,
    Terminated,
}

impl ActorStatus {
    /// Position in the lifecycle; transitions never decrease it.
    pub open spec fn rank(self) -> int {
        match self {
            ActorStatus::Initializing => 0,
            ActorStatus::Normal => 1,
            ActorStatus::Terminating => 2,
            ActorStatus::Terminated => 3,
        }
    }
}

/// A running actor: its address, mailbox, request table and status.
pub struct ActorObject {
    pub addr: Addr,
    pub mailbox: Mailbox,
    pub request_table: RequestTable,
    pub status: ActorStatus,
}

impl ActorObject {
    pub open spec fn wf(self) -> bool {
        self.request_table.wf() && self.addr.spec_is_local()
    }

    pub fn new(addr: Addr, mailbox_capacity: usize) -> (o: ActorObject)
        requires
            addr.spec_is_local(),
        ensures
            o.wf(),
            o.addr == addr,
            o.status == ActorStatus::Initializing,
            o.mailbox.queue() == Seq::<crate::envelope::EnvelopeView>::empty(),
            o.mailbox.spec_capacity() == mailbox_capacity,
            !o.mailbox.spec_closed(),
            o.request_table.next_id() == 0,
            forall|id: int| #[trigger] o.request_table.slot(id) is None,
    {
        ActorObject {
            addr,
            mailbox: Mailbox::new(mailbox_capacity),
            request_table: RequestTable::new(),
            status: ActorStatus::Initializing,
        }
    }
}

/// Two mailboxes with the same observable state.
pub open spec fn mailbox_equiv(m: Mailbox, m2: Mailbox) -> bool {
    &&& m2.queue() == m.queue()
    &&& m2.spec_closed() == m.spec_closed()
    &&& m2.spec_capacity() == m.spec_capacity()
}

/// Two request tables with the same slots.
pub open spec fn table_equiv(t: RequestTable, t2: RequestTable) -> bool {
    &&& t2.next_id() == t.next_id()
    &&& forall|id: int| #[trigger] t2.slot(id) == t.slot(id)
}

/// Two actor objects with the same observable state.
pub open spec fn actor_equiv(o: ActorObject, o2: ActorObject) -> bool {
    &&& o2.addr == o.addr
    &&& o2.status == o.status
    &&& mailbox_equiv(o.mailbox, o2.mailbox)
    &&& table_equiv(o.request_table, o2.request_table)
}

pub open spec fn entry_equiv(a: Option<ActorObject>, b: Option<ActorObject>) -> bool {
    match (a, b) {
        (Some(o), Some(o2)) => actor_equiv(o, o2),
        (None, None) => true,
        _ => false,
    }
}

/// Two books with the same observable state everywhere.
pub open spec fn book_equiv(b0: AddressBook, b1: AddressBook) -> bool {
    &&& b1.spec_len() == b0.spec_len()
    &&& forall|i: int| #[trigger] entry_equiv(b0.entry_at(i), b1.entry_at(i))
}

/// Every entry but `a`'s is observably unchanged between `b0` and `b1`.
pub open spec fn frame_except(b0: AddressBook, b1: AddressBook, a: Addr) -> bool {
    &&& b1.spec_len() == b0.spec_len()
    &&& a.spec_is_local()
    &&& forall|i: int|
        i != a.spec_slot() ==> #[trigger] entry_equiv(b0.entry_at(i), b1.entry_at(i))
}

/// Identical entries are observably equivalent.
pub proof fn lemma_entry_equiv_refl(a: Option<ActorObject>)
    ensures
        entry_equiv(a, a),
{
}

/// A book update that keeps every other entry equal also keeps it
/// observably unchanged.
pub proof fn lemma_frame_from_updated(b0: AddressBook, b1: AddressBook, a: Addr)
    requires
        b0.updated(b1, a),
    ensures
        frame_except(b0, b1, a),
{
    assert forall|i: int| i != a.spec_slot() implies #[trigger] entry_equiv(
        b0.entry_at(i),
        b1.entry_at(i),
    ) by {
        assert(b1.entry_at(i) == b0.entry_at(i));
        lemma_entry_equiv_refl(b0.entry_at(i));
    }
}

/// A token that cannot be duplicated: its requester is gone, its slot was
/// taken, or the slot's waiter count is saturated.
pub open spec fn token_stuck(b: AddressBook, t: ResponseToken) -> bool {
    match b.spec_get(t.sender) {
        Some(o) => match o.request_table.slot(t.request_id as int) {
            Some(s) => s.outstanding == usize::MAX,
            None => true,
        },
        None => true,
    }
}

/// A fresh live token was registered for `t`'s slot: `t2` names the same
/// request, and the requester's slot gained one waiter; a forgotten token
/// duplicates to a forgotten token and touches nothing.
pub open spec fn duplicated_token(
    before: AddressBook,
    after: AddressBook,
    t: ResponseToken,
    t2: ResponseToken,
) -> bool {
    if t.forgotten {
        t2.forgotten && after == before
    } else {
        &&& !t2.forgotten
        &&& t2.sender == t.sender
        &&& t2.request_id == t.request_id
        &&& t2.multi == t.multi
        &&& before.spec_get(t.sender) matches Some(o)
        &&& before.updated(after, t.sender)
        &&& after.spec_get(t.sender) matches Some(o2)
        &&& o2.addr == o.addr
        &&& o2.mailbox == o.mailbox
        &&& o2.status == o.status
        &&& o2.request_table.next_id() == o.request_table.next_id()
        &&& o.request_table.slot(t.request_id as int) matches Some(s)
        &&& o2.request_table.slot(t.request_id as int) == Some(
            crate::request_table::SlotView {
                outstanding: s.outstanding + 1,
                issued: s.issued + 1,
                ..s
            },
        )
        &&& forall|id: int|
            id != t.request_id ==> #[trigger] o2.request_table.slot(id) == o.request_table.slot(id)
    }
}

/// Two actor objects that differ at most in their mailbox state.
pub open spec fn same_but_mailbox(o: ActorObject, o2: ActorObject) -> bool {
    &&& o2.addr == o.addr
    &&& o2.status == o.status
    &&& o2.request_table == o.request_table
}

/// Exec counterpart of `ActorStatus::rank`.
fn status_rank(s: ActorStatus) -> (r: u8)
    ensures
        r as int == s.rank(),
{
    match s {
        ActorStatus::Initializing => 0,
        ActorStatus::Normal => 1,
        ActorStatus::Terminating => 2,
        ActorStatus::Terminated => 3,
    }
}

/// The directory. A slot below `len` was reserved; it holds `Some` once the
/// actor was installed and `None` while reserved or after removal.
pub struct AddressBook {
    entries: Vec<Option<ActorObject>>,
}

impl AddressBook {
    /// The entry of reserved slot `i`.
    pub closed spec fn entry_at(self, i: int) -> Option<ActorObject> {
        if 0 <= i < self.entries@.len() {
            self.entries@[i]
        } else {
            None
        }
    }

    /// How many slots were reserved so far.
    pub closed spec fn spec_len(self) -> int {
        self.entries@.len() as int
    }

    /// The object behind an address: nothing for NULL, for remote addresses,
    /// and for addresses that were never reserved.
    pub open spec fn spec_get(self, a: Addr) -> Option<ActorObject> {
        if a.spec_is_local() {
            self.entry_at(a.spec_slot() as int)
        } else {
            None
        }
    }

    /// Every installed object is well-formed and sits under its own address.
    pub open spec fn wf(self) -> bool {
        forall|i: int|
            #[trigger] self.entry_at(i) is Some ==> {
                &&& self.entry_at(i).unwrap().wf()
                &&& self.entry_at(i).unwrap().addr.spec_slot() == i
                &&& self.entry_at(i).unwrap().addr.spec_is_local()
            }
    }

    /// Two books with the same entries everywhere.
    pub open spec fn same_entries(self, other: AddressBook) -> bool {
        &&& other.spec_len() == self.spec_len()
        &&& forall|i: int| #[trigger] other.entry_at(i) == self.entry_at(i)
    }

    /// The book after `a`'s entry changed and nothing else.
    pub open spec fn updated(self, other: AddressBook, a: Addr) -> bool {
        &&& other.spec_len() == self.spec_len()
        &&& a.spec_is_local()
        &&& forall|i: int| i != a.spec_slot() ==> #[trigger] other.entry_at(i) == self.entry_at(i)
    }

    pub fn new() -> (b: AddressBook)
        ensures
            b.wf(),
            b.spec_len() == 0,
            forall|i: int| #[trigger] b.entry_at(i) is None,
    {
        AddressBook { entries: Vec::new() }
    }

    /// Reserves a fresh address; its slot stays empty until `insert`.
    pub fn vacant_entry(&mut self) -> (a: Addr)
        requires
            old(self).wf(),
            old(self).spec_len() < u32::MAX,
        ensures
            final(self).wf(),
            a.spec_is_local(),
            a.spec_slot() == old(self).spec_len(),
            old(self).spec_get(a) is None,
            final(self).spec_len() == old(self).spec_len() + 1,
            final(self).spec_get(a) is None,
            forall|i: int| i != a.spec_slot() ==> #[trigger] final(self).entry_at(i) == old(
                self,
            ).entry_at(i),
    {
        let slot = self.entries.len() as u32;
        self.entries.push(None);
        proof {
            assert forall|i: int| #[trigger] self.entry_at(i) is Some implies {
                &&& self.entry_at(i).unwrap().wf()
                &&& self.entry_at(i).unwrap().addr.spec_slot() == i
                &&& self.entry_at(i).unwrap().addr.spec_is_local()
            } by {
                assert(self.entry_at(i) == old(self).entry_at(i));
            }
        }
        Addr::from_slot(slot)
    }

    /// Installs an actor under a reserved address.
    pub fn insert(&mut self, a: Addr, object: ActorObject)
        requires
            old(self).wf(),
            a.spec_is_local(),
            0 <= a.spec_slot() < old(self).spec_len(),
            object.wf(),
            object.addr == a,
        ensures
            final(self).wf(),
            old(self).updated(*final(self), a),
            final(self).spec_get(a) == Some(object),
    {
        let slot = a.slot() as usize;
        let entry = &mut self.entries[slot];
        *entry = Some(object);
        proof {
            assert forall|i: int| #[trigger] self.entry_at(i) is Some implies {
                &&& self.entry_at(i).unwrap().wf()
                &&& self.entry_at(i).unwrap().addr.spec_slot() == i
                &&& self.entry_at(i).unwrap().addr.spec_is_local()
            } by {
                if i != a.spec_slot() {
                    assert(self.entry_at(i) == old(self).entry_at(i));
                }
            }
        }
    }

    /// Removes the entry of an address, freeing the actor it held.
    pub fn remove(&mut self, a: Addr) -> (r: Option<ActorObject>)
        requires
            old(self).wf(),
        ensures
            final(self).wf(),
            r == old(self).spec_get(a),
            if a.spec_is_local() && 0 <= a.spec_slot() < old(self).spec_len() {
                old(self).updated(*final(self), a) && final(self).spec_get(a) is None
            } else {
                *final(self) == *old(self)
            },
    {
        if !a.is_local() {
            return None;
        }
        let slot = a.slot() as usize;
        if slot >= self.entries.len() {
            return None;
        }
        let entry = &mut self.entries[slot];
        let mut taken: Option<ActorObject> = None;
        core::mem::swap(entry, &mut taken);
        proof {
            assert forall|i: int| #[trigger] self.entry_at(i) is Some implies {
                &&& self.entry_at(i).unwrap().wf()
                &&& self.entry_at(i).unwrap().addr.spec_slot() == i
                &&& self.entry_at(i).unwrap().addr.spec_is_local()
            } by {
                if i != a.spec_slot() {
                    assert(self.entry_at(i) == old(self).entry_at(i));
                }
            }
        }
        taken
    }

    /// Non-blocking delivery into the mailbox of the actor behind `a`; an
    /// unknown address counts as closed.
    pub fn try_send_at(&mut self, a: Addr, envelope: Envelope) -> (r: Result<
        (),
        TrySendError<Envelope>,
    >)
        requires
            old(self).wf(),
        ensures
            final(self).wf(),
            match old(self).spec_get(a) {
                Some(o) => {
                    &&& old(self).updated(*final(self), a)
                    &&& final(self).spec_get(a) matches Some(o2)
                    &&& same_but_mailbox(o, o2)
                    &&& o2.mailbox.spec_capacity() == o.mailbox.spec_capacity()
                    &&& o2.mailbox.spec_closed() == o.mailbox.spec_closed()
                    &&& match r {
                        Ok(()) => {
                            &&& !o.mailbox.spec_closed()
                            &&& o.mailbox.queue().len() < o.mailbox.spec_capacity()
                            &&& o2.mailbox.queue() == o.mailbox.queue().push(envelope@)
                        },
                        Err(TrySendError::Closed(e)) => {
                            &&& o.mailbox.spec_closed()
                            &&& e@ == envelope@
                            &&& o2.mailbox.queue() == o.mailbox.queue()
                        },
                        Err(TrySendError::Full(e)) => {
                            &&& !o.mailbox.spec_closed()
                            &&& o.mailbox.queue().len() >= o.mailbox.spec_capacity()
                            &&& e@ == envelope@
                            &&& o2.mailbox.queue() == o.mailbox.queue()
                        },
                    }
                },
                None => *final(self) == *old(self) && (r matches Err(TrySendError::Closed(e))
                    && e@ == envelope@),
            },
    {
        if !a.is_local() {
            return Err(TrySendError::Closed(envelope));
        }
        let slot = a.slot() as usize;
        if slot >= self.entries.len() {
            return Err(TrySendError::Closed(envelope));
        }
        let present = match &self.entries[slot] {
            Some(_) => true,
            None => false,
        };
        if !present {
            return Err(TrySendError::Closed(envelope));
        }
        let entry = &mut self.entries[slot];
        let r = match entry {
            Some(o) => o.mailbox.try_send(envelope),
            None => unreached(),
        };
        proof {
            self.lemma_wf_after_update(*old(self), a);
        }
        r
    }

    /// Blocking delivery, modeled after its wait completed; an unknown
    /// address counts as closed.
    pub fn send_at(&mut self, a: Addr, envelope: Envelope) -> (r: Result<(), SendError<Envelope>>)
        requires
            old(self).wf(),
        ensures
            final(self).wf(),
            match old(self).spec_get(a) {
                Some(o) => {
                    &&& old(self).updated(*final(self), a)
                    &&& final(self).spec_get(a) matches Some(o2)
                    &&& same_but_mailbox(o, o2)
                    &&& o2.mailbox.spec_capacity() == o.mailbox.spec_capacity()
                    &&& o2.mailbox.spec_closed() == o.mailbox.spec_closed()
                    &&& match r {
                        Ok(()) => {
                            &&& !o.mailbox.spec_closed()
                            &&& o2.mailbox.queue() == o.mailbox.queue().push(envelope@)
                        },
                        Err(SendError(e)) => {
                            &&& o.mailbox.spec_closed()
                            &&& e@ == envelope@
                            &&& o2.mailbox.queue() == o.mailbox.queue()
                        },
                    }
                },
                None => *final(self) == *old(self) && (r matches Err(SendError(e)) && e@
                    == envelope@),
            },
    {
        if !a.is_local() {
            return Err(SendError(envelope));
        }
        let slot = a.slot() as usize;
        if slot >= self.entries.len() {
            return Err(SendError(envelope));
        }
        let present = match &self.entries[slot] {
            Some(_) => true,
            None => false,
        };
        if !present {
            return Err(SendError(envelope));
        }
        let entry = &mut self.entries[slot];
        let r = match entry {
            Some(o) => o.mailbox.send(envelope),
            None => unreached(),
        };
        proof {
            self.lemma_wf_after_update(*old(self), a);
        }
        r
    }

    /// Non-blocking receive from the mailbox of the actor behind `a`; an
    /// unknown address counts as closed.
    pub fn try_recv_at(&mut self, a: Addr) -> (r: Result<Envelope, TryRecvError>)
        requires
            old(self).wf(),
        ensures
            final(self).wf(),
            match old(self).spec_get(a) {
                Some(o) => {
                    &&& old(self).updated(*final(self), a)
                    &&& final(self).spec_get(a) matches Some(o2)
                    &&& same_but_mailbox(o, o2)
                    &&& o2.mailbox.spec_capacity() == o.mailbox.spec_capacity()
                    &&& o2.mailbox.spec_closed() == o.mailbox.spec_closed()
                    &&& match r {
                        Ok(e) => {
                            &&& o.mailbox.queue().len() > 0
                            &&& e@ == o.mailbox.queue()[0]
                            &&& o2.mailbox.queue() == o.mailbox.queue().drop_first()
                        },
                        Err(TryRecvError::Closed) => {
                            &&& o.mailbox.queue().len() == 0
                            &&& o.mailbox.spec_closed()
                            &&& o2.mailbox.queue() == o.mailbox.queue()
                        },
                        Err(TryRecvError::Empty) => {
                            &&& o.mailbox.queue().len() == 0
                            &&& !o.mailbox.spec_closed()
                            &&& o2.mailbox.queue() == o.mailbox.queue()
                        },
                    }
                },
                None => *final(self) == *old(self) && r == Err::<Envelope, TryRecvError>(
                    TryRecvError::Closed,
                ),
            },
    {
        if !a.is_local() {
            return Err(TryRecvError::Closed);
        }
        let slot = a.slot() as usize;
        if slot >= self.entries.len() {
            return Err(TryRecvError::Closed);
        }
        let present = match &self.entries[slot] {
            Some(_) => true,
            None => false,
        };
        if !present {
            return Err(TryRecvError::Closed);
        }
        let entry = &mut self.entries[slot];
        let r = match entry {
            Some(o) => o.mailbox.try_recv(),
            None => unreached(),
        };
        proof {
            self.lemma_wf_after_update(*old(self), a);
        }
        r
    }

    /// Closes the mailbox of the actor behind `a`; true only on the
    /// transition open -> closed. Unknown addresses yield false.
    pub fn close_at(&mut self, a: Addr) -> (r: bool)
        requires
            old(self).wf(),
        ensures
            final(self).wf(),
            match old(self).spec_get(a) {
                Some(o) => {
                    &&& old(self).updated(*final(self), a)
                    &&& final(self).spec_get(a) matches Some(o2)
                    &&& same_but_mailbox(o, o2)
                    &&& o2.mailbox.spec_capacity() == o.mailbox.spec_capacity()
                    &&& o2.mailbox.queue() == o.mailbox.queue()
                    &&& o2.mailbox.spec_closed()
                    &&& r == !o.mailbox.spec_closed()
                },
                None => *final(self) == *old(self) && r == false,
            },
    {
        if !a.is_local() {
            return false;
        }
        let slot = a.slot() as usize;
        if slot >= self.entries.len() {
            return false;
        }
        let present = match &self.entries[slot] {
            Some(_) => true,
            None => false,
        };
        if !present {
            return false;
        }
        let entry = &mut self.entries[slot];
        let r = match entry {
            Some(o) => o.mailbox.close(),
            None => unreached(),
        };
        proof {
            self.lemma_wf_after_update(*old(self), a);
        }
        r
    }

    /// Moves the actor behind `a` along its lifecycle. Backward transitions
    /// are ignored: the status only ever advances.
    pub fn set_status_at(&mut self, a: Addr, status: ActorStatus)
        requires
            old(self).wf(),
        ensures
            final(self).wf(),
            match old(self).spec_get(a) {
                Some(o) => {
                    &&& old(self).updated(*final(self), a)
                    &&& final(self).spec_get(a) matches Some(o2)
                    &&& o2.addr == o.addr
                    &&& o2.mailbox == o.mailbox
                    &&& o2.request_table == o.request_table
                    &&& o2.status == (if status.rank() >= o.status.rank() {
                        status
                    } else {
                        o.status
                    })
                },
                None => *final(self) == *old(self),
            },
    {
        if !a.is_local() {
            return ;
        }
        let slot = a.slot() as usize;
        if slot >= self.entries.len() {
            return ;
        }
        let present = match &self.entries[slot] {
            Some(_) => true,
            None => false,
        };
        if !present {
            return ;
        }
        let entry = &mut self.entries[slot];
        match entry {
            Some(o) => {
                let forward = status_rank(status) >= status_rank(o.status);
                if forward {
                    o.status = status;
                }
            },
            None => unreached(),
        }
        proof {
            self.lemma_wf_after_update(*old(self), a);
        }
    }

    /// Issues a request in the table of the actor behind `a`; `None` when the
    /// address names no live actor.
    pub fn new_request_at(&mut self, a: Addr, multi: bool) -> (r: Option<ResponseToken>)
        requires
            old(self).wf(),
        ensures
            final(self).wf(),
            match old(self).spec_get(a) {
                Some(o) => {
                    &&& old(self).updated(*final(self), a)
                    &&& final(self).spec_get(a) matches Some(o2)
                    &&& o2.addr == o.addr
                    &&& o2.mailbox == o.mailbox
                    &&& o2.status == o.status
                    &&& r matches Some(token)
                    &&& !token.forgotten
                    &&& token.multi == multi
                    &&& token.sender == a
                    &&& token.request_id == o.request_table.next_id()
                    &&& o2.request_table.next_id() == o.request_table.next_id() + 1
                    &&& o2.request_table.slot(token.request_id as int) == Some(
                        crate::request_table::SlotView {
                            multi,
                            outstanding: 1,
                            responses: Seq::empty(),
                            done: false,
                            issued: 1,
                        },
                    )
                    &&& forall|id: int|
                        id != token.request_id ==> #[trigger] o2.request_table.slot(id)
                            == o.request_table.slot(id)
                },
                None => *final(self) == *old(self) && r is None,
            },
    {
        if !a.is_local() {
            return None;
        }
        let slot = a.slot() as usize;
        if slot >= self.entries.len() {
            return None;
        }
        let present = match &self.entries[slot] {
            Some(_) => true,
            None => false,
        };
        if !present {
            return None;
        }
        let entry = &mut self.entries[slot];
        let r = match entry {
            Some(o) => {
                let owner = o.addr;
                Some(o.request_table.new_request(owner, multi))
            },
            None => unreached(),
        };
        proof {
            self.lemma_wf_after_update(*old(self), a);
        }
        r
    }

    /// Registers one more waiter for a pending request; `None` when the
    /// requester died or the slot is gone.
    pub fn clone_token_at(&mut self, token: &ResponseToken) -> (r: Option<ResponseToken>)
        requires
            old(self).wf(),
            !token.forgotten,
        ensures
            final(self).wf(),
            match old(self).spec_get(token.sender) {
                Some(o) => {
                    &&& old(self).updated(*final(self), token.sender)
                    &&& final(self).spec_get(token.sender) matches Some(o2)
                    &&& o2.addr == o.addr
                    &&& o2.mailbox == o.mailbox
                    &&& o2.status == o.status
                    &&& o2.request_table.next_id() == o.request_table.next_id()
                    &&& match r {
                        Some(t) => {
                            &&& t.sender == token.sender
                            &&& t.request_id == token.request_id
                            &&& t.multi == token.multi
                            &&& !t.forgotten
                            &&& o.request_table.slot(token.request_id as int) matches Some(s)
                            &&& o2.request_table.slot(token.request_id as int) == Some(
                                crate::request_table::SlotView {
                                    outstanding: s.outstanding + 1,
                                    issued: s.issued + 1,
                                    ..s
                                },
                            )
                        },
                        None => o2.request_table == o.request_table && (
                        o.request_table.slot(token.request_id as int) matches Some(s)
                            ==> s.outstanding == usize::MAX),
                    }
                    &&& forall|id: int|
                        id != token.request_id ==> #[trigger] o2.request_table.slot(id)
                            == o.request_table.slot(id)
                },
                None => *final(self) == *old(self) && r is None,
            },
    {
        let a = token.sender;
        if !a.is_local() {
            return None;
        }
        let slot = a.slot() as usize;
        if slot >= self.entries.len() {
            return None;
        }
        let present = match &self.entries[slot] {
            Some(_) => true,
            None => false,
        };
        if !present {
            return None;
        }
        let entry = &mut self.entries[slot];
        let r = match entry {
            Some(o) => o.request_table.clone_token(token),
            None => unreached(),
        };
        proof {
            self.lemma_wf_after_update(*old(self), a);
        }
        r
    }

    /// Consumes a live token: deposits the response into the requester's
    /// slot, or discards it silently when the requester died.
    pub fn respond_at(&mut self, token: ResponseToken, response: Option<Envelope>)
        requires
            old(self).wf(),
            !token.forgotten,
        ensures
            final(self).wf(),
            match old(self).spec_get(token.sender) {
                Some(o) => {
                    &&& old(self).updated(*final(self), token.sender)
                    &&& final(self).spec_get(token.sender) matches Some(o2)
                    &&& o2.addr == o.addr
                    &&& o2.mailbox == o.mailbox
                    &&& o2.status == o.status
                    &&& o2.request_table.next_id() == o.request_table.next_id()
                    &&& match o.request_table.slot(token.request_id as int) {
                        Some(s) => {
                            if s.outstanding == 0 {
                                o2.request_table.slot(token.request_id as int) == Some(s)
                            } else if s.multi {
                                o2.request_table.slot(token.request_id as int) == Some(
                                    crate::request_table::SlotView {
                                        outstanding: (s.outstanding - 1) as nat,
                                        responses: s.responses.push(
                                            match response {
                                                Some(e) => Some(e@),
                                                None => None,
                                            },
                                        ),
                                        ..s
                                    },
                                )
                            } else if !s.done && response is Some {
                                o2.request_table.slot(token.request_id as int) == Some(
                                    crate::request_table::SlotView {
                                        outstanding: (s.outstanding - 1) as nat,
                                        responses: seq![
                                            match response {
                                                Some(e) => Some(e@),
                                                None => None,
                                            },
                                        ],
                                        done: true,
                                        ..s
                                    },
                                )
                            } else {
                                o2.request_table.slot(token.request_id as int) == Some(
                                    crate::request_table::SlotView {
                                        outstanding: (s.outstanding - 1) as nat,
                                        ..s
                                    },
                                )
                            }
                        },
                        None => o2.request_table == o.request_table,
                    }
                    &&& forall|id: int|
                        id != token.request_id ==> #[trigger] o2.request_table.slot(id)
                            == o.request_table.slot(id)
                },
                None => *final(self) == *old(self),
            },
    {
        let a = token.sender;
        if !a.is_local() {
            return ;
        }
        let slot = a.slot() as usize;
        if slot >= self.entries.len() {
            return ;
        }
        let present = match &self.entries[slot] {
            Some(_) => true,
            None => false,
        };
        if !present {
            return ;
        }
        let entry = &mut self.entries[slot];
        match entry {
            Some(o) => o.request_table.respond(token, response),
            None => unreached(),
        }
        proof {
            self.lemma_wf_after_update(*old(self), a);
        }
    }

    /// Returns a live token that never reached a recipient: the requester's
    /// slot loses the waiter without gaining an entry. A dead requester
    /// absorbs it silently.
    pub fn release_at(&mut self, token: ResponseToken)
        requires
            old(self).wf(),
            !token.forgotten,
        ensures
            final(self).wf(),
            match old(self).spec_get(token.sender) {
                Some(o) => {
                    &&& old(self).updated(*final(self), token.sender)
                    &&& final(self).spec_get(token.sender) matches Some(o2)
                    &&& o2.addr == o.addr
                    &&& o2.mailbox == o.mailbox
                    &&& o2.status == o.status
                    &&& o2.request_table.next_id() == o.request_table.next_id()
                    &&& match o.request_table.slot(token.request_id as int) {
                        Some(s) => {
                            if s.outstanding == 0 {
                                o2.request_table.slot(token.request_id as int) == Some(s)
                            } else {
                                o2.request_table.slot(token.request_id as int) == Some(
                                    crate::request_table::SlotView {
                                        outstanding: (s.outstanding - 1) as nat,
                                        issued: (s.issued - 1) as nat,
                                        ..s
                                    },
                                )
                            }
                        },
                        None => o2.request_table == o.request_table,
                    }
                    &&& forall|id: int|
                        id != token.request_id ==> #[trigger] o2.request_table.slot(id)
                            == o.request_table.slot(id)
                },
                None => *final(self) == *old(self),
            },
    {
        let a = token.sender;
        if !a.is_local() {
            return ;
        }
        let slot = a.slot() as usize;
        if slot >= self.entries.len() {
            return ;
        }
        let present = match &self.entries[slot] {
            Some(_) => true,
            None => false,
        };
        if !present {
            return ;
        }
        let entry = &mut self.entries[slot];
        match entry {
            Some(o) => o.request_table.release(token),
            None => unreached(),
        }
        proof {
            self.lemma_wf_after_update(*old(self), a);
        }
    }

    /// Yields the collected responses of a completed request of the actor
    /// behind `a`, removing the slot; `None` while responses are still owed
    /// or when the actor is gone.
    pub fn wait_at(&mut self, a: Addr, request_id: usize) -> (r: Option<Vec<Option<Envelope>>>)
        requires
            old(self).wf(),
        ensures
            final(self).wf(),
            match old(self).spec_get(a) {
                Some(o) => {
                    &&& old(self).updated(*final(self), a)
                    &&& final(self).spec_get(a) matches Some(o2)
                    &&& o2.addr == o.addr
                    &&& o2.mailbox == o.mailbox
                    &&& o2.status == o.status
                    &&& o2.request_table.next_id() == o.request_table.next_id()
                    &&& match r {
                        Some(responses) => {
                            &&& o.request_table.slot(request_id as int) matches Some(s)
                            &&& s.complete()
                            &&& crate::request_table::responses_view(responses@) == s.responses
                            &&& o2.request_table.slot(request_id as int) is None
                        },
                        None => {
                            &&& o2.request_table == o.request_table
                            &&& match o.request_table.slot(request_id as int) {
                                Some(s) => !s.complete(),
                                None => true,
                            }
                        },
                    }
                    &&& forall|id: int|
                        id != request_id ==> #[trigger] o2.request_table.slot(id)
                            == o.request_table.slot(id)
                },
                None => *final(self) == *old(self) && r is None,
            },
    {
        if !a.is_local() {
            return None;
        }
        let slot = a.slot() as usize;
        if slot >= self.entries.len() {
            return None;
        }
        let present = match &self.entries[slot] {
            Some(_) => true,
            None => false,
        };
        if !present {
            return None;
        }
        let entry = &mut self.entries[slot];
        let r = match entry {
            Some(o) => o.request_table.wait(request_id),
            None => unreached(),
        };
        proof {
            self.lemma_wf_after_update(*old(self), a);
        }
        r
    }

    /// Duplicates an envelope for one more recipient: the payload is copied
    /// and, for request kinds, one more waiter is registered with the
    /// requester. Fails only when the requester of a live request is gone or
    /// stopped waiting.
    pub fn duplicate(&mut self, envelope: &Envelope) -> (r: Option<Envelope>)
        requires
            old(self).wf(),
        ensures
            final(self).wf(),
            match r {
                Some(e) => {
                    &&& e@.message == envelope@.message
                    &&& e@.trace_id == envelope@.trace_id
                    &&& match envelope@.kind {
                        MessageKind::Regular { sender } => *final(self) == *old(self) && e@.kind
                            == envelope@.kind,
                        MessageKind::RequestAny(t) => {
                            &&& e@.kind matches MessageKind::RequestAny(t2)
                            &&& duplicated_token(*old(self), *final(self), t, t2)
                        },
                        MessageKind::RequestAll(t) => {
                            &&& e@.kind matches MessageKind::RequestAll(t2)
                            &&& duplicated_token(*old(self), *final(self), t, t2)
                        },
                    }
                },
                None => {
                    &&& old(self).same_entries(*final(self))
                    &&& match envelope@.kind {
                        MessageKind::Regular { .. } => false,
                        MessageKind::RequestAny(t) => !t.forgotten && token_stuck(
                            *old(self),
                            t,
                        ),
                        MessageKind::RequestAll(t) => !t.forgotten && token_stuck(
                            *old(self),
                            t,
                        ),
                    }
                },
            },
    {
        let message = envelope.message.dup();
        let trace_id = envelope.trace_id;
        match &envelope.kind {
            MessageKind::Regular { sender } => Some(
                Envelope { message, kind: MessageKind::Regular { sender: *sender }, trace_id },
            ),
            MessageKind::RequestAny(t) => {
                if t.is_forgotten() {
                    Some(
                        Envelope {
                            message,
                            kind: MessageKind::RequestAny(ResponseToken::forgotten_token()),
                            trace_id,
                        },
                    )
                } else {
                    match self.clone_token_at(t) {
                        Some(t2) => Some(
                            Envelope { message, kind: MessageKind::RequestAny(t2), trace_id },
                        ),
                        None => None,
                    }
                }
            },
            MessageKind::RequestAll(t) => {
                if t.is_forgotten() {
                    Some(
                        Envelope {
                            message,
                            kind: MessageKind::RequestAll(ResponseToken::forgotten_token()),
                            trace_id,
                        },
                    )
                } else {
                    match self.clone_token_at(t) {
                        Some(t2) => Some(
                            Envelope { message, kind: MessageKind::RequestAll(t2), trace_id },
                        ),
                        None => None,
                    }
                }
            },
        }
    }

    /// Re-establishes well-formedness after one entry changed into another
    /// well-formed object with the same address.
    proof fn lemma_wf_after_update(&self, before: AddressBook, a: Addr)
        requires
            before.wf(),
            a.spec_is_local(),
            self.spec_len() == before.spec_len(),
            forall|i: int| i != a.spec_slot() ==> #[trigger] self.entry_at(i) == before.entry_at(i),
            self.entry_at(a.spec_slot() as int) matches Some(o2) ==> {
                &&& before.entry_at(a.spec_slot() as int) matches Some(o)
                &&& o2.wf()
                &&& o2.addr == o.addr
            },
        ensures
            self.wf(),
    {
        assert forall|i: int| #[trigger] self.entry_at(i) is Some implies {
            &&& self.entry_at(i).unwrap().wf()
            &&& self.entry_at(i).unwrap().addr.spec_slot() == i
            &&& self.entry_at(i).unwrap().addr.spec_is_local()
        } by {
            if i != a.spec_slot() {
                assert(self.entry_at(i) == before.entry_at(i));
            }
        }
    }

    /// A live entry's slot lies below the reservation count.
    pub proof fn lemma_get_in_range(&self, a: Addr)
        requires
            self.spec_get(a) is Some,
        ensures
            0 <= a.spec_slot() < self.spec_len(),
    {
    }

    /// Whether an address currently names a live object.
    pub fn contains(&self, a: Addr) -> (r: bool)
        ensures
            r == (self.spec_get(a) is Some),
    {
        if !a.is_local() {
            return false;
        }
        let slot = a.slot() as usize;
        if slot >= self.entries.len() {
            return false;
        }
        match &self.entries[slot] {
            Some(_) => true,
            None => false,
        }
    }

    /// The status of the actor behind an address.
    pub fn status_of(&self, a: Addr) -> (r: Option<ActorStatus>)
        ensures
            match r {
                Some(st) => self.spec_get(a) matches Some(o) && o.status == st,
                None => self.spec_get(a) is None,
            },
    {
        if !a.is_local() {
            return None;
        }
        let slot = a.slot() as usize;
        if slot >= self.entries.len() {
            return None;
        }
        match &self.entries[slot] {
            Some(o) => Some(o.status),
            None => None,
        }
    }
}

} // verus!
