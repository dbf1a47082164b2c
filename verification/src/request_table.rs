//! Per-actor correlation of requests to pending response slots.
//!
//! A slot is created when a request is issued, grows a waiter for every
//! duplicated token, collects one entry per consumed token (a deposited
//! response, or `None` for a dropped token), and completes when every token
//! is consumed — or, for a single-response request, on the first response.

use vstd::prelude::*;

use crate::addr::Addr;
use crate::envelope::{envelopes_view, Envelope, EnvelopeView, ResponseToken};

verus! {

/// One pending request.
struct Slot {
    /// Whether every response is collected (`RequestAll`).
    multi: bool,
    /// Live tokens not yet consumed.
    outstanding: usize,
    /// One entry per consumed token: the response, or `None` when the token
    /// was dropped.
    responses: Vec<Option<Envelope>>,
    /// A single-response slot that already holds its winner.
    done: bool,
    /// How many tokens were ever issued for this slot.
    issued: Ghost<nat>,
}

/// The mathematical content of a slot.
pub struct SlotView {
    pub multi: bool,
    pub outstanding: nat,
    pub responses: Seq<Option<EnvelopeView>>,
    pub done: bool,
    pub issued: nat,
}

pub open spec fn responses_view(v: Seq<Option<Envelope>>) -> Seq<Option<EnvelopeView>> {
    v.map_values(
        |o: Option<Envelope>|
            match o {
                Some(e) => Some(e@),
                None => None,
            },
    )
}

impl Slot {
    spec fn view(self) -> SlotView {
        SlotView {
            multi: self.multi,
            outstanding: self.outstanding as nat,
            responses: responses_view(self.responses@),
            done: self.done,
            issued: self.issued@,
        }
    }
}

impl SlotView {
    /// Conservation: every issued token is live, or left exactly one entry
    /// (for a single-response slot, entries stop at the winner).
    pub open spec fn wf(self) -> bool {
        if self.multi {
            self.responses.len() + self.outstanding == self.issued && !self.done
        } else {
            &&& self.responses.len() <= 1
            &&& self.done <==> self.responses.len() == 1
            &&& self.responses.len() == 1 ==> self.responses[0] is Some
            &&& self.outstanding <= self.issued
        }
    }

    /// A slot completes when every token is consumed, or — for a
    /// single-response request — as soon as the winner arrived.
    pub open spec fn complete(self) -> bool {
        self.outstanding == 0 || self.done
    }
}

/// Maps request ids to pending slots. Ids are assigned monotonically and are
/// unique per actor; a taken or never-issued id has no slot.
pub struct RequestTable {
    slots: Vec<Option<Slot>>,
}

impl RequestTable {
    /// The slot under a request id, if any.
    pub closed spec fn slot(self, id: int) -> Option<SlotView> {
        if 0 <= id < self.slots@.len() {
            match self.slots@[id] {
                Some(s) => Some(s.view()),
                None => None,
            }
        } else {
            None
        }
    }

    /// Ids this table has issued so far; fresh ids are assigned from here up.
    pub closed spec fn next_id(self) -> int {
        self.slots@.len() as int
    }

    /// Every live slot obeys the conservation invariant.
    pub open spec fn wf(self) -> bool {
        forall|id: int|
            #[trigger] self.slot(id) matches Some(s) ==> s.wf()
    }

    pub fn new() -> (t: RequestTable)
        ensures
            t.wf(),
            t.next_id() == 0,
            forall|id: int| #[trigger] t.slot(id) is None,
    {
        RequestTable { slots: Vec::new() }
    }

    /// Issues a new request: reserves a fresh slot with one live token and
    /// hands that token out.
    pub fn new_request(&mut self, owner: Addr, multi: bool) -> (token: ResponseToken)
        requires
            old(self).wf(),
        ensures
            final(self).wf(),
            !token.forgotten,
            token.multi == multi,
            token.sender == owner,
            token.request_id == old(self).next_id(),
            final(self).next_id() == old(self).next_id() + 1,
            final(self).slot(token.request_id as int) == Some(
                SlotView {
                    multi,
                    outstanding: 1,
                    responses: Seq::<Option<EnvelopeView>>::empty(),
                    done: false,
                    issued: 1,
                },
            ),
            forall|id: int|
                id != token.request_id ==> #[trigger] final(self).slot(id) == old(self).slot(id),
    {
        let id = self.slots.len();
        let slot = Slot {
            multi,
            outstanding: 1,
            responses: Vec::new(),
            done: false,
            issued: Ghost(1),
        };
        proof {
            assert(slot.view() == SlotView {
                multi,
                outstanding: 1,
                responses: responses_view(Seq::<Option<Envelope>>::empty()),
                done: false,
                issued: 1,
            });
            assert(responses_view(Seq::<Option<Envelope>>::empty()) =~= Seq::<
                Option<EnvelopeView>,
            >::empty());
        }
        self.slots.push(Some(slot));
        proof {
            assert forall|i: int| #[trigger] self.slot(i) is Some implies self.slot(i).unwrap().wf() by {
                if i != id {
                    assert(self.slot(i) == old(self).slot(i));
                }
            }
            assert forall|i: int| i != id implies #[trigger] self.slot(i) == old(self).slot(i)
            by {}
        }
        ResponseToken { sender: owner, request_id: id, multi, forgotten: false }
    }

    /// Registers one more live token for a pending request; used when an
    /// envelope is duplicated for one more recipient. Fails when the slot is
    /// gone or its waiter count would overflow.
    pub fn clone_token(&mut self, token: &ResponseToken) -> (r: Option<ResponseToken>)
        requires
            old(self).wf(),
            !token.forgotten,
        ensures
            final(self).wf(),
            final(self).next_id() == old(self).next_id(),
            match r {
                Some(t) => {
                    &&& t.sender == token.sender
                    &&& t.request_id == token.request_id
                    &&& t.multi == token.multi
                    &&& !t.forgotten
                    &&& old(self).slot(token.request_id as int) matches Some(s)
                    &&& final(self).slot(token.request_id as int) == Some(
                        SlotView {
                            outstanding: s.outstanding + 1,
                            issued: s.issued + 1,
                            ..s
                        },
                    )
                },
                None => *final(self) == *old(self) && (old(self).slot(token.request_id as int) matches
                Some(s) ==> s.outstanding == usize::MAX),
            },
            forall|id: int|
                id != token.request_id ==> #[trigger] final(self).slot(id) == old(self).slot(id),
    {
        let id = token.request_id;
        if id >= self.slots.len() {
            return None;
        }
        let live = match &self.slots[id] {
            Some(slot) => slot.outstanding < usize::MAX,
            None => false,
        };
        if !live {
            return None;
        }
        let slot_ref = &mut self.slots[id];
        match slot_ref {
            Some(slot) => {
                slot.outstanding = slot.outstanding + 1;
                proof {
                    slot.issued@ = slot.issued@ + 1;
                }
            },
            None => {},
        }
        proof {
            assert forall|i: int| #[trigger] self.slot(i) is Some implies self.slot(i).unwrap().wf() by {
                if i != id {
                    assert(self.slot(i) == old(self).slot(i));
                }
            }
        }
        Some(
            ResponseToken {
                sender: token.sender,
                request_id: token.request_id,
                multi: token.multi,
                forgotten: false,
            },
        )
    }

    /// Consumes a token: deposits the response (or records a dropped token as
    /// `None`). On a slot that is gone — the requester stopped waiting — the
    /// response is discarded silently.
    pub fn respond(&mut self, token: ResponseToken, response: Option<Envelope>)
        requires
            old(self).wf(),
            !token.forgotten,
        ensures
            final(self).wf(),
            final(self).next_id() == old(self).next_id(),
            match old(self).slot(token.request_id as int) {
                Some(s) => {
                    if s.outstanding == 0 {
                        final(self).slot(token.request_id as int) == Some(s)
                    } else if s.multi {
                        final(self).slot(token.request_id as int) == Some(
                            SlotView {
                                outstanding: (s.outstanding - 1) as nat,
                                responses: s.responses.push(
                                    match response {
                                        Some(e) => Some(e@),
                                        None => None,
                                    },
                                ),
                                ..s
                            },
                        )
                    } else if !s.done && response is Some {
                        final(self).slot(token.request_id as int) == Some(
                            SlotView {
                                outstanding: (s.outstanding - 1) as nat,
                                responses: seq![
                                    match response {
                                        Some(e) => Some(e@),
                                        None => None,
                                    },
                                ],
                                done: true,
                                ..s
                            },
                        )
                    } else {
                        final(self).slot(token.request_id as int) == Some(
                            SlotView { outstanding: (s.outstanding - 1) as nat, ..s },
                        )
                    }
                },
                None => *final(self) == *old(self),
            },
            forall|id: int|
                id != token.request_id ==> #[trigger] final(self).slot(id) == old(self).slot(id),
    {
        let id = token.request_id;
        if id >= self.slots.len() {
            return ;
        }
        let live = match &self.slots[id] {
            Some(slot) => slot.outstanding > 0,
            None => false,
        };
        if !live {
            return ;
        }
        let slot_ref = &mut self.slots[id];
        match slot_ref {
            Some(slot) => {
                slot.outstanding = slot.outstanding - 1;
                if slot.multi {
                    let ghost before = responses_view(slot.responses@);
                    slot.responses.push(response);
                    proof {
                        assert(responses_view(slot.responses@) =~= before.push(
                            match response {
                                Some(e) => Some(e@),
                                None => None,
                            },
                        ));
                    }
                } else if !slot.done {
                    match response {
                        Some(e) => {
                            slot.responses.push(Some(e));
                            slot.done = true;
                            proof {
                                assert(responses_view(slot.responses@) =~= seq![
                                    Some(e@),
                                ]);
                            }
                        },
                        None => {},
                    }
                }
            },
            None => {},
        }
        proof {
            assert forall|i: int| #[trigger] self.slot(i) is Some implies self.slot(i).unwrap().wf() by {
                if i != id {
                    assert(self.slot(i) == old(self).slot(i));
                }
            }
        }
    }

    /// Returns a token that never reached a recipient: the slot loses the
    /// waiter without gaining an entry. Infrastructure uses this for
    /// undelivered duplicates; a recipient's drop goes through `respond`.
    pub fn release(&mut self, token: ResponseToken)
        requires
            old(self).wf(),
            !token.forgotten,
        ensures
            final(self).wf(),
            final(self).next_id() == old(self).next_id(),
            match old(self).slot(token.request_id as int) {
                Some(s) => {
                    if s.outstanding == 0 {
                        final(self).slot(token.request_id as int) == Some(s)
                    } else {
                        final(self).slot(token.request_id as int) == Some(
                            SlotView {
                                outstanding: (s.outstanding - 1) as nat,
                                issued: (s.issued - 1) as nat,
                                ..s
                            },
                        )
                    }
                },
                None => *final(self) == *old(self),
            },
            forall|id: int|
                id != token.request_id ==> #[trigger] final(self).slot(id) == old(self).slot(id),
    {
        let id = token.request_id;
        if id >= self.slots.len() {
            return ;
        }
        let live = match &self.slots[id] {
            Some(slot) => slot.outstanding > 0,
            None => false,
        };
        if !live {
            return ;
        }
        let slot_ref = &mut self.slots[id];
        match slot_ref {
            Some(slot) => {
                slot.outstanding = slot.outstanding - 1;
                proof {
                    if slot.issued@ >= 1 {
                        slot.issued@ = (slot.issued@ - 1) as nat;
                    }
                }
            },
            None => {},
        }
        proof {
            assert forall|i: int| #[trigger] self.slot(i) is Some implies self.slot(i).unwrap().wf() by {
                if i != id {
                    assert(self.slot(i) == old(self).slot(i));
                }
            }
        }
    }

    /// Yields the collected responses once the request completed, removing
    /// the slot; `None` while responses are still owed. Absent entries mean
    /// the token was dropped.
    pub fn wait(&mut self, request_id: usize) -> (r: Option<Vec<Option<Envelope>>>)
        requires
            old(self).wf(),
        ensures
            final(self).wf(),
            final(self).next_id() == old(self).next_id(),
            match r {
                Some(responses) => {
                    &&& old(self).slot(request_id as int) matches Some(s)
                    &&& s.complete()
                    &&& responses_view(responses@) == s.responses
                    &&& final(self).slot(request_id as int) is None
                },
                None => {
                    &&& *final(self) == *old(self)
                    &&& match old(self).slot(request_id as int) {
                        Some(s) => !s.complete(),
                        None => true,
                    }
                },
            },
            forall|id: int|
                id != request_id ==> #[trigger] final(self).slot(id) == old(self).slot(id),
    {
        if request_id >= self.slots.len() {
            return None;
        }
        let complete = match &self.slots[request_id] {
            Some(slot) => slot.outstanding == 0 || slot.done,
            None => false,
        };
        if !complete {
            return None;
        }
        let slot_ref = &mut self.slots[request_id];
        let mut taken: Option<Slot> = None;
        core::mem::swap(slot_ref, &mut taken);
        proof {
            assert forall|i: int| #[trigger] self.slot(i) is Some implies self.slot(i).unwrap().wf() by {
                if i != request_id {
                    assert(self.slot(i) == old(self).slot(i));
                }
            }
        }
        match taken {
            Some(slot) => Some(slot.responses),
            None => None,
        }
    }
}

/// A completed fan-out request yields exactly as many entries as tokens were
/// issued: one per recipient of the original send.
pub proof fn lemma_request_all_yields_one_entry_per_token(s: SlotView)
    requires
        s.wf(),
        s.multi,
        s.complete(),
    ensures
        s.responses.len() == s.issued,
{
}

} // verus!
