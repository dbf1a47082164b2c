//! The owner of a group: a sharded map from router keys to running actors,
//! spawned on first use; configuration validation and installation; and the
//! dispatch of every received envelope according to the router's outcome,
//! with backpressure surfaced upward as `Wait`/`WaitAll`.

use vstd::prelude::*;

use crate::addr::Addr;
use crate::book::{ActorObject, AddressBook};
use crate::config::{ConfigError, ConfigValue};
use crate::context::{responded, token_of, token_released, Context};
use crate::envelope::{Envelope, EnvelopeView, MessageKind, ResponseToken};
use crate::errors::TrySendError;
use crate::messages::{Message, MessageView};
use crate::routers::{Outcome, Router};

verus! {

/// The sharded concurrent map holding the group's running actors, keyed by
/// router key; values are the actors' address bits.
#[verifier::external_body]
pub struct ObjectMap {
    inner: dashmap::DashMap<u64, u64, fxhash::FxBuildHasher>,
}

/// What the sharded map holds: router key to address bits.
pub uninterp spec fn object_map_contents(m: ObjectMap) -> Map<u64, u64>;

/// The contents of a map that holds nothing.
pub open spec fn no_objects() -> Map<u64, u64> {
    Map::empty()
}

/// Relies on dashmap::DashMap's `Default`: a fresh map holds nothing.
#[verifier::external_body]
pub fn object_map_new() -> (made: ObjectMap)
    ensures
        object_map_contents(made) == no_objects(),
{
    ObjectMap { inner: dashmap::DashMap::default() }
}

/// Relies on dashmap::DashMap::get: the value under the key, if present.
#[verifier::external_body]
pub fn object_map_get(m: &ObjectMap, key: u64) -> (r: Option<u64>)
    ensures
        r == if object_map_contents(*m).dom().contains(key) {
            Some(object_map_contents(*m)[key])
        } else {
            None::<u64>
        },
{
    m.inner.get(&key).map(|entry| *entry.value())
}

/// Relies on dashmap::DashMap::insert: the key now maps to the value;
/// nothing else changes.
#[verifier::external_body]
pub fn object_map_insert(m: &mut ObjectMap, key: u64, value: u64)
    ensures
        object_map_contents(*final(m)) == object_map_contents(*old(m)).insert(key, value),
{
    m.inner.insert(key, value);
}

/// Relies on dashmap::DashMap::len: the number of keys.
#[verifier::external_body]
pub fn object_map_len(m: &ObjectMap) -> (n: usize)
    ensures
        n == object_map_contents(*m).dom().len(),
{
    m.inner.len()
}

/// Relies on dashmap::DashMap::iter: without concurrent writers it yields
/// each entry exactly once; the order is unspecified.
#[verifier::external_body]
pub fn object_map_entries(m: &ObjectMap) -> (v: Vec<(u64, u64)>)
    ensures
        v@.len() == object_map_contents(*m).dom().len(),
        forall|i: int|
            0 <= i < v@.len() ==> object_map_contents(*m).dom().contains(#[trigger] v@[i].0)
                && object_map_contents(*m)[v@[i].0] == v@[i].1,
        forall|i: int, j: int| 0 <= i < j < v@.len() ==> v@[i].0 != v@[j].0,
{
    m.inner.iter().map(|entry| (*entry.key(), *entry.value())).collect()
}

/// What `handle` reports to its caller. `Wait`/`WaitAll` carry the envelopes
/// that met a full mailbox: the caller completes them later or abandons
/// them — the mailbox's backpressure contract exposed upward.
#[derive(Debug, PartialEq)]
pub enum RouteReport {
    Done,
    Closed(Envelope),
    Wait(Addr, Envelope),
    WaitAll(bool, Vec<(Addr, Envelope)>),
}

/// A group supervisor.
pub struct Supervisor {
    name: Vec<u8>,
    context: Context,
    objects: ObjectMap,
    router: Router,
    config: Option<ConfigValue>,
}

impl Supervisor {
    pub closed spec fn spec_objects(self) -> Map<u64, u64> {
        object_map_contents(self.objects)
    }

    pub closed spec fn spec_router(self) -> Router {
        self.router
    }

    pub closed spec fn spec_config(self) -> Option<ConfigValue> {
        self.config
    }

    pub closed spec fn spec_context(self) -> Context {
        self.context
    }

    pub closed spec fn spec_name(self) -> Seq<u8> {
        self.name@
    }

    /// Every stored actor is installed in the book under a distinct local
    /// address.
    pub open spec fn wf(self, b: AddressBook) -> bool {
        &&& forall|k: u64|
            #[trigger] self.spec_objects().dom().contains(k) ==> {
                let a = Addr { bits: self.spec_objects()[k] };
                a.spec_is_local() && b.spec_get(a) is Some
            }
        &&& forall|k1: u64, k2: u64|
            self.spec_objects().dom().contains(k1) && self.spec_objects().dom().contains(k2) && k1
                != k2 ==> #[trigger] self.spec_objects()[k1] != #[trigger] self.spec_objects()[k2]
    }

    pub fn new(ctx: Context, name: Vec<u8>, router: Router) -> (s: Supervisor)
        ensures
            s.spec_objects() == Map::<u64, u64>::empty(),
            s.spec_config() is None,
            s.spec_router() == router,
            s.spec_context() == ctx,
            s.spec_name() == name@,
            forall|b: AddressBook| s.wf(b),
    {
        Supervisor { name, context: ctx, objects: object_map_new(), router, config: None }
    }

    /// The address stored under a router key, if an actor runs for it.
    pub fn lookup(&self, key: u64) -> (r: Option<Addr>)
        ensures
            match r {
                Some(a) => self.spec_objects().dom().contains(key) && a.bits
                    == self.spec_objects()[key],
                None => !self.spec_objects().dom().contains(key),
            },
    {
        match object_map_get(&self.objects, key) {
            Some(bits) => Some(Addr { bits }),
            None => None,
        }
    }

    /// Installs the group's configuration directly; traffic may only be
    /// routed once one is set.
    pub fn set_config(&mut self, config: ConfigValue)
        ensures
            final(self).spec_config() matches Some(c) && c@ == config@,
            final(self).spec_objects() == old(self).spec_objects(),
            final(self).spec_router() == old(self).spec_router(),
            final(self).spec_context() == old(self).spec_context(),
            final(self).spec_name() == old(self).spec_name(),
    {
        self.config = Some(config);
    }

    /// Reserves an address, builds the actor under the group configuration,
    /// installs it in the book, and records it under the key. The running of
    /// the actor's body is its executor's business, outside this map.
    fn spawn(&mut self, book: &mut AddressBook, key: u64) -> (a: Addr)
        requires
            old(book).wf(),
            old(self).wf(*old(book)),
            old(self).spec_config() is Some,
            old(book).spec_len() + 1 <= u32::MAX,
        ensures
            final(book).wf(),
            final(self).wf(*final(book)),
            a.spec_is_local(),
            a.spec_slot() == old(book).spec_len(),
            old(book).spec_get(a) is None,
            final(book).spec_len() == old(book).spec_len() + 1,
            final(book).spec_get(a) matches Some(o) && o.status
                == crate::book::ActorStatus::Initializing && o.mailbox.queue() == Seq::<
                EnvelopeView,
            >::empty() && !o.mailbox.spec_closed() && o.mailbox.spec_capacity()
                == old(self).spec_config().unwrap()@.mailbox_capacity,
            forall|i: int|
                i != a.spec_slot() ==> #[trigger] final(book).entry_at(i) == old(book).entry_at(i),
            final(self).spec_objects() == old(self).spec_objects().insert(key, a.bits),
            final(self).spec_config() == old(self).spec_config(),
            final(self).spec_router() == old(self).spec_router(),
            final(self).spec_context() == old(self).spec_context(),
    {
        let addr = book.vacant_entry();
        let capacity = match &self.config {
            Some(c) => c.mailbox_capacity,
            None => unreached(),
        };
        let object = ActorObject::new(addr, capacity as usize);
        book.insert(addr, object);
        object_map_insert(&mut self.objects, key, addr.bits);
        proof {
            let m2 = self.spec_objects();
            assert forall|k: u64| #[trigger] m2.dom().contains(k) implies {
                let a2 = Addr { bits: m2[k] };
                a2.spec_is_local() && book.spec_get(a2) is Some
            } by {
                if k != key {
                    assert(old(self).spec_objects().dom().contains(k));
                    let a2 = Addr { bits: m2[k] };
                    assert(old(book).spec_get(a2) is Some);
                    old(book).lemma_get_in_range(a2);
                    assert(book.entry_at(a2.spec_slot() as int) == old(book).entry_at(
                        a2.spec_slot() as int,
                    ));
                }
            }
            assert forall|k1: u64, k2: u64|
                m2.dom().contains(k1) && m2.dom().contains(k2) && k1 != k2 implies #[trigger] m2[k1]
                != #[trigger] m2[k2] by {
                if k1 != key && k2 != key {
                    assert(old(self).spec_objects()[k1] != old(self).spec_objects()[k2]);
                } else if k1 == key {
                    assert(old(self).spec_objects().dom().contains(k2));
                    let a2 = Addr { bits: m2[k2] };
                    assert(old(book).spec_get(a2) is Some);
                    old(book).lemma_get_in_range(a2);
                    assert(a2.bits != addr.bits);
                } else {
                    assert(old(self).spec_objects().dom().contains(k1));
                    let a1 = Addr { bits: m2[k1] };
                    assert(old(book).spec_get(a1) is Some);
                    old(book).lemma_get_in_range(a1);
                    assert(a1.bits != addr.bits);
                }
            }
        }
        addr
    }
}


impl Supervisor {
    /// Classifies an envelope: configuration traffic is decoded here —
    /// a blob that fails to decode answers its token with `ConfigRejected`
    /// and reaches no actor — and everything else goes to the router.
    pub fn handle(&mut self, book: &mut AddressBook, envelope: Envelope) -> (r: RouteReport)
        requires
            old(book).wf(),
            old(self).wf(*old(book)),
            old(self).spec_config() is Some,
            old(book).spec_len() + 1 <= u32::MAX,
        ensures
            final(book).wf(),
            final(self).wf(*final(book)),
            final(self).spec_router() == old(self).spec_router(),
            final(self).spec_context() == old(self).spec_context(),
            match envelope@.message {
                MessageView::ValidateConfig { config } => {
                    &&& final(self).spec_config() == old(self).spec_config()
                    &&& (crate::config::spec_dec_config(config.blob) is None ==> {
                        &&& r is Done
                        &&& final(self).spec_objects() == old(self).spec_objects()
                        &&& match token_of(envelope@.kind) {
                            Some(t) => responded(
                                *old(book),
                                *final(book),
                                t,
                                MessageView::ConfigRejected { reason: ConfigError::Malformed },
                                old(self).spec_context().spec_addr(),
                                old(self).spec_context().spec_trace_id(),
                            ),
                            None => *final(book) == *old(book),
                        }
                    })
                },
                MessageView::UpdateConfig { config } => {
                    &&& (crate::config::spec_dec_config(config.blob) matches Some(v) ==> final(self).spec_config() matches Some(c) && c@ == v)
                    &&& (crate::config::spec_dec_config(config.blob) is None ==> {
                        &&& r is Done
                        &&& final(self).spec_config() == old(self).spec_config()
                        &&& final(self).spec_objects() == old(self).spec_objects()
                        &&& match token_of(envelope@.kind) {
                            Some(t) => responded(
                                *old(book),
                                *final(book),
                                t,
                                MessageView::ConfigRejected { reason: ConfigError::Malformed },
                                old(self).spec_context().spec_addr(),
                                old(self).spec_context().spec_trace_id(),
                            ),
                            None => *final(book) == *old(book),
                        }
                    })
                },
                _ => final(self).spec_config() == old(self).spec_config()
                    && unicast_or_fanout_report(
                    *old(self),
                    *final(self),
                    *old(book),
                    *final(book),
                    envelope@,
                    crate::routers::spec_route(
                        old(self).spec_router().spec_rules(),
                        old(self).spec_router().spec_otherwise(),
                        envelope@.message,
                    ),
                    r,
                ),
            },
    {
        let is_validate = match &envelope.message {
            Message::ValidateConfig { .. } => true,
            _ => false,
        };
        let is_update = match &envelope.message {
            Message::UpdateConfig { .. } => true,
            _ => false,
        };
        if is_validate || is_update {
            let Envelope { message, kind, trace_id } = envelope;
            let config = match message {
                Message::ValidateConfig { config } => config,
                Message::UpdateConfig { config } => config,
                _ => unreached(),
            };
            match config.decode() {
                Ok(decoded) => {
                    if is_update {
                        self.config = Some(decoded.get_user().dup());
                    }
                    let message2 = if is_update {
                        Message::UpdateConfig { config: decoded }
                    } else {
                        Message::ValidateConfig { config: decoded }
                    };
                    let stamped = Envelope { message: message2, kind, trace_id };
                    self.do_handle(book, stamped, Outcome::Broadcast)
                },
                Err(reason) => {
                    match kind {
                        MessageKind::Regular { .. } => {},
                        MessageKind::RequestAny(t) => {
                            if t.is_forgotten() {
                            } else {
                                let reject = Message::ConfigRejected { reason };
                                let reply = Envelope::new(
                                    reject,
                                    MessageKind::Regular { sender: self.context.addr() },
                                    self.context.trace_id(),
                                );
                                book.respond_at(t, Some(reply));
                            }
                        },
                        MessageKind::RequestAll(t) => {
                            if t.is_forgotten() {
                            } else {
                                let reject = Message::ConfigRejected { reason };
                                let reply = Envelope::new(
                                    reject,
                                    MessageKind::Regular { sender: self.context.addr() },
                                    self.context.trace_id(),
                                );
                                book.respond_at(t, Some(reply));
                            }
                        },
                    }
                    RouteReport::Done
                },
            }
        } else {
            let outcome = self.router.route(&envelope);
            self.do_handle(book, envelope, outcome)
        }
    }

    /// Dispatches an envelope under a routing outcome. A unicast to an
    /// unseen key spawns exactly one actor for it — the key is recorded
    /// before anyone else can race a second spawn — and delivery reports
    /// `Wait` on a full mailbox and hands a `Closed` envelope back.
    pub fn do_handle(&mut self, book: &mut AddressBook, envelope: Envelope, outcome: Outcome) -> (r:
        RouteReport)
        requires
            old(book).wf(),
            old(self).wf(*old(book)),
            old(self).spec_config() is Some,
            old(book).spec_len() + 1 <= u32::MAX,
        ensures
            final(book).wf(),
            final(self).wf(*final(book)),
            final(self).spec_config() == old(self).spec_config(),
            final(self).spec_router() == old(self).spec_router(),
            final(self).spec_context() == old(self).spec_context(),
            unicast_or_fanout_report(
                *old(self),
                *final(self),
                *old(book),
                *final(book),
                envelope@,
                outcome,
                r,
            ),
    {
        match outcome {
            Outcome::Discard => RouteReport::Done,
            Outcome::Unicast(key) => {
                let ghost b0 = *old(book);
                let ghost s0 = *old(self);
                let existing = object_map_get(&self.objects, key);
                let ghost was_there = existing is Some;
                let addr = match existing {
                    Some(bits) => Addr { bits },
                    None => self.spawn(book, key),
                };
                proof {
                    if was_there {
                        assert(s0.spec_objects().dom().insert(key) =~= s0.spec_objects().dom());
                    } else {
                        assert(self.spec_objects().dom() =~= s0.spec_objects().dom().insert(key));
                    }
                }
                let ghost b_sp = *book;
                let ghost s_sp = *self;
                let r = match book.try_send_at(addr, envelope) {
                    Ok(()) => RouteReport::Done,
                    Err(TrySendError::Full(e)) => RouteReport::Wait(addr, e),
                    Err(TrySendError::Closed(e)) => RouteReport::Closed(e),
                };
                proof {
                    crate::book::lemma_frame_from_updated(b_sp, *book, addr);
                    crate::context::lemma_liveness_refl(b_sp);
                    crate::context::lemma_liveness_step(b_sp, b_sp, *book, addr);
                    lemma_sup_wf_liveness(s_sp, b_sp, *book);
                    assert forall|i: int|
                        i != addr.spec_slot() && 0 <= i < b0.spec_len() implies crate::book::entry_equiv(
                        #[trigger] b0.entry_at(i),
                        book.entry_at(i),
                    ) by {
                        assert(b_sp.entry_at(i) == b0.entry_at(i));
                        assert(crate::book::entry_equiv(b_sp.entry_at(i), book.entry_at(i)));
                    }
                }
                r
            },
            Outcome::Broadcast => {
                let ghost b0 = *old(book);
                let entries = object_map_entries(&self.objects);
                let mut waiters: Vec<(Addr, Envelope)> = Vec::new();
                let mut someone = false;
                let mut k: usize = 0;
                proof {
                    crate::context::lemma_liveness_refl(b0);
                }
                while k < entries.len()
                    invariant
                        book.wf(),
                        k <= entries@.len(),
                        b0 == *old(book),
                        *self == *old(self),
                        old(self).wf(b0),
                        outcome == Outcome::Broadcast,
                        crate::context::same_liveness(b0, *book),
                        forall|i: int|
                            0 <= i < waiters@.len() ==> (#[trigger] waiters@[i].1)@.message
                                == envelope@.message,
                    decreases entries@.len() - k,
                {
                    let ghost b_it = *book;
                    let copy = match book.duplicate(&envelope) {
                        Some(c) => c,
                        None => {
                            // The requester died: nothing left to answer.
                            proof {
                                lemma_liveness_from_entries(b0, b_it, *book);
                                lemma_sup_wf_liveness(*self, b0, *book);
                                assert(self.spec_objects() == old(self).spec_objects());
                                assert(book.spec_len() == old(book).spec_len());

                            }
                            return RouteReport::Done;
                        },
                    };
                    let ghost b_dup = *book;
                    proof {
                        match token_of(envelope@.kind) {
                            Some(t) => {
                                crate::book::lemma_frame_from_updated(b_it, b_dup, t.sender);
                                crate::context::lemma_liveness_step(b0, b_it, b_dup, t.sender);
                            },
                            None => {
                                assert(b_dup == b_it);
                            },
                        }
                    }
                    let (_, bits) = entries[k];
                    let target = Addr { bits };
                    match book.try_send_at(target, copy) {
                        Ok(()) => {
                            someone = true;
                            proof {
                                crate::book::lemma_frame_from_updated(b_dup, *book, target);
                                crate::context::lemma_liveness_step(b0, b_dup, *book, target);
                            }
                        },
                        Err(TrySendError::Full(e)) => {
                            proof {
                                crate::book::lemma_frame_from_updated(b_dup, *book, target);
                                crate::context::lemma_liveness_step(b0, b_dup, *book, target);
                            }
                            waiters.push((target, e));
                        },
                        Err(TrySendError::Closed(e)) => {
                            let ghost b_c = *book;
                            proof {
                                if b_dup.spec_get(target) is Some {
                                    crate::book::lemma_frame_from_updated(b_dup, b_c, target);
                                    crate::context::lemma_liveness_step(b0, b_dup, b_c, target);
                                } else {
                                    assert(b_c == b_dup);
                                }
                            }
                            let Envelope { message: _, kind, trace_id: _ } = e;
                            release_kind_token(book, kind);
                            proof {
                                match token_of(kind) {
                                    Some(t) => {
                                        lemma_liveness_release(b0, b_c, *book, t);
                                    },
                                    None => {
                                        assert(*book == b_c);
                                    },
                                }
                            }
                        },
                    }
                    k = k + 1;
                }
                let r = if waiters.len() == 0 {
                    if someone {
                        let ghost b_e = *book;
                        let Envelope { message: _, kind, trace_id: _ } = envelope;
                        release_kind_token(book, kind);
                        proof {
                            match token_of(kind) {
                                Some(t) => {
                                    lemma_liveness_release(b0, b_e, *book, t);
                                },
                                None => {
                                    assert(*book == b_e);
                                },
                            }
                        }
                        RouteReport::Done
                    } else {
                        RouteReport::Closed(envelope)
                    }
                } else {
                    let ghost b_e = *book;
                    let Envelope { message: _, kind, trace_id: _ } = envelope;
                    release_kind_token(book, kind);
                    proof {
                        match token_of(kind) {
                            Some(t) => {
                                lemma_liveness_release(b0, b_e, *book, t);
                            },
                            None => {
                                assert(*book == b_e);
                            },
                        }
                    }
                    RouteReport::WaitAll(someone, waiters)
                };
                proof {
                    lemma_sup_wf_liveness(*self, b0, *book);
                }
                r
            },
        }
    }
}

/// What `do_handle` promises per outcome: discarded envelopes change
/// nothing; a unicast spawns at most one actor — never a second one for a
/// key already seen — and the report mirrors the target mailbox; a fan-out
/// delivers one copy per accepting instance and returns the rest as waiters.
pub open spec fn unicast_or_fanout_report(
    s0: Supervisor,
    s1: Supervisor,
    b0: AddressBook,
    b1: AddressBook,
    e: EnvelopeView,
    outcome: Outcome,
    r: RouteReport,
) -> bool {
    match outcome {
        Outcome::Discard => {
            &&& r is Done
            &&& b1 == b0
            &&& s1.spec_objects() == s0.spec_objects()
        },
        Outcome::Unicast(key) => {
            let bits = s1.spec_objects()[key];
            let a = Addr { bits };
            &&& s1.spec_objects().dom() == s0.spec_objects().dom().insert(key)
            &&& (s0.spec_objects().dom().contains(key) ==> s1.spec_objects() == s0.spec_objects()
                && b1.spec_len() == b0.spec_len())
            &&& (!s0.spec_objects().dom().contains(key) ==> b0.spec_get(a) is None
                && b1.spec_len() == b0.spec_len() + 1)
            &&& forall|k2: u64|
                k2 != key && s0.spec_objects().dom().contains(k2)
                    ==> #[trigger] s1.spec_objects()[k2] == s0.spec_objects()[k2]
            &&& b1.spec_get(a) matches Some(o2)
            &&& ({
                let queue_before = if s0.spec_objects().dom().contains(key) {
                    b0.spec_get(a).unwrap().mailbox.queue()
                } else {
                    Seq::<EnvelopeView>::empty()
                };
                let cap = if s0.spec_objects().dom().contains(key) {
                    b0.spec_get(a).unwrap().mailbox.spec_capacity()
                } else {
                    s0.spec_config().unwrap()@.mailbox_capacity as usize
                };
                match r {
                    RouteReport::Done => o2.mailbox.queue() == queue_before.push(e)
                        && queue_before.len() < cap,
                    RouteReport::Wait(wa, we) => wa == a && we@ == e && o2.mailbox.queue()
                        == queue_before && queue_before.len() >= cap,
                    RouteReport::Closed(ce) => ce@ == e && o2.mailbox.queue() == queue_before
                        && o2.mailbox.spec_closed() && s0.spec_objects().dom().contains(key),
                    RouteReport::WaitAll(..) => false,
                }
            })
            &&& forall|i: int|
                i != a.spec_slot() && 0 <= i < b0.spec_len() ==> crate::book::entry_equiv(
                    #[trigger] b0.entry_at(i),
                    b1.entry_at(i),
                )
        },
        Outcome::Broadcast => {
            &&& s1.spec_objects() == s0.spec_objects()
            &&& b1.spec_len() == b0.spec_len()
            &&& match r {
                RouteReport::Done => true,
                RouteReport::Closed(ce) => ce@ == e,
                RouteReport::WaitAll(someone, waiters) => waiters@.len() > 0 && forall|i: int|
                    0 <= i < waiters@.len() ==> (#[trigger] waiters@[i].1)@.message == e.message,
                RouteReport::Wait(..) => false,
            }
        },
    }
}

/// A supervisor stays well-formed under any book step that keeps presence.
proof fn lemma_sup_wf_liveness(s: Supervisor, b0: AddressBook, b1: AddressBook)
    requires
        s.wf(b0),
        crate::context::same_liveness(b0, b1),
    ensures
        s.wf(b1),
{
    assert forall|k: u64| #[trigger] s.spec_objects().dom().contains(k) implies {
        let a = Addr { bits: s.spec_objects()[k] };
        a.spec_is_local() && b1.spec_get(a) is Some
    } by {
        let a = Addr { bits: s.spec_objects()[k] };
        assert(match (b0.entry_at(a.spec_slot() as int), b1.entry_at(a.spec_slot() as int)) {
            (Some(o), Some(o2)) => o2.mailbox.spec_closed() == o.mailbox.spec_closed(),
            (None, None) => true,
            _ => false,
        });
    }
}

/// Equal entries keep liveness.
proof fn lemma_liveness_from_entries(b0: AddressBook, b1: AddressBook, b2: AddressBook)
    requires
        crate::context::same_liveness(b0, b1),
        b1.same_entries(b2),
    ensures
        crate::context::same_liveness(b0, b2),
{
    assert forall|i: int|
        match (#[trigger] b0.entry_at(i), #[trigger] b2.entry_at(i)) {
            (Some(o), Some(o2)) => o2.mailbox.spec_closed() == o.mailbox.spec_closed(),
            (None, None) => true,
            _ => false,
        } by {
        assert(b2.entry_at(i) == b1.entry_at(i));
    }
}

/// A token release keeps liveness.
proof fn lemma_liveness_release(
    b0: AddressBook,
    b1: AddressBook,
    b2: AddressBook,
    t: ResponseToken,
)
    requires
        crate::context::same_liveness(b0, b1),
        token_released(b1, b2, t),
    ensures
        crate::context::same_liveness(b0, b2),
{
    if b1.spec_get(t.sender) is Some {
        crate::context::lemma_liveness_step(b0, b1, b2, t.sender);
    } else {
        crate::context::lemma_liveness_from_equiv(b0, b1, b2);
    }
}

/// For any key, the number of live actors under it never exceeds one: a
/// unicast to a key already seen reuses the stored actor — the second of two
/// dispatches to one key spawns nothing.
pub proof fn lemma_spawn_at_most_once(
    s0: Supervisor,
    s1: Supervisor,
    s2: Supervisor,
    b0: AddressBook,
    b1: AddressBook,
    b2: AddressBook,
    e1: EnvelopeView,
    e2: EnvelopeView,
    key: u64,
    r1: RouteReport,
    r2: RouteReport,
)
    requires
        unicast_or_fanout_report(s0, s1, b0, b1, e1, Outcome::Unicast(key), r1),
        unicast_or_fanout_report(s1, s2, b1, b2, e2, Outcome::Unicast(key), r2),
    ensures
        s2.spec_objects() == s1.spec_objects(),
        b2.spec_len() == b1.spec_len(),
{
    assert(s1.spec_objects().dom().contains(key));
}

/// Returns the live token of a dropped envelope's kind to its slot.
fn release_kind_token(book: &mut AddressBook, kind: MessageKind)
    requires
        old(book).wf(),
    ensures
        final(book).wf(),
        final(book).spec_len() == old(book).spec_len(),
        match token_of(kind) {
            Some(t) => token_released(*old(book), *final(book), t),
            None => *final(book) == *old(book),
        },
{
    match kind {
        MessageKind::Regular { .. } => {},
        MessageKind::RequestAny(t) => {
            if !t.is_forgotten() {
                book.release_at(t);
            }
        },
        MessageKind::RequestAll(t) => {
            if !t.is_forgotten() {
                book.release_at(t);
            }
        },
    }
}

} // verus!
