//! The demultiplexer: a pure function from an envelope to the set of local
//! addresses that subscribe to its message type. It is orthogonal to the
//! per-group router, and the recipients it yields are distinct.

use vstd::prelude::*;

use crate::addr::Addr;
use crate::envelope::Envelope;

verus! {

/// One routing edge: envelopes whose message carries `ltid` go to `addr`.
#[derive(Clone, Copy, Debug)]
pub struct Subscription {
    pub ltid: u32,
    pub addr: Addr,
}

/// The recipients of a message type: subscription order, first occurrence
/// of each address only.
pub open spec fn spec_filter(subs: Seq<Subscription>, ltid: u32) -> Seq<Addr>
    decreases subs.len(),
{
    if subs.len() == 0 {
        Seq::<Addr>::empty()
    } else {
        let rest = spec_filter(subs.drop_last(), ltid);
        let s = subs.last();
        if s.ltid == ltid && !rest.contains(s.addr) {
            rest.push(s.addr)
        } else {
            rest
        }
    }
}

/// The filter yields each address at most once.
pub proof fn lemma_filter_distinct(subs: Seq<Subscription>, ltid: u32)
    ensures
        forall|i: int, j: int|
            0 <= i < j < spec_filter(subs, ltid).len() ==> spec_filter(subs, ltid)[i]
                != spec_filter(subs, ltid)[j],
    decreases subs.len(),
{
    if subs.len() > 0 {
        lemma_filter_distinct(subs.drop_last(), ltid);
        let rest = spec_filter(subs.drop_last(), ltid);
        let whole = spec_filter(subs, ltid);
        if subs.last().ltid == ltid && !rest.contains(subs.last().addr) {
            assert forall|i: int, j: int| 0 <= i < j < whole.len() implies whole[i] != whole[j] by {
                if j == whole.len() - 1 {
                    assert(rest.contains(rest[i]));
                }
            }
        }
    }
}

/// The filter yields exactly the subscribed addresses of the type.
pub proof fn lemma_filter_complete(subs: Seq<Subscription>, ltid: u32, a: Addr)
    ensures
        spec_filter(subs, ltid).contains(a) <==> exists|k: int|
            0 <= k < subs.len() && subs[k].ltid == ltid && subs[k].addr == a,
    decreases subs.len(),
{
    if subs.len() > 0 {
        lemma_filter_complete(subs.drop_last(), ltid, a);
        let rest = spec_filter(subs.drop_last(), ltid);
        let whole = spec_filter(subs, ltid);
        if whole.contains(a) {
            if rest.contains(a) {
                let k = choose|k: int|
                    0 <= k < subs.drop_last().len() && subs.drop_last()[k].ltid == ltid
                        && subs.drop_last()[k].addr == a;
                assert(subs[k].ltid == ltid && subs[k].addr == a);
            } else {
                assert(subs.last().ltid == ltid && subs.last().addr == a);
                assert(0 <= subs.len() - 1 < subs.len());
            }
        }
        if exists|k: int| 0 <= k < subs.len() && subs[k].ltid == ltid && subs[k].addr == a {
            let k = choose|k: int|
                0 <= k < subs.len() && subs[k].ltid == ltid && subs[k].addr == a;
            if k < subs.len() - 1 {
                assert(subs.drop_last()[k].ltid == ltid && subs.drop_last()[k].addr == a);
                assert(rest.contains(a));
                if subs.last().ltid == ltid && !rest.contains(subs.last().addr) {
                    assert(whole == rest.push(subs.last().addr));
                    let i = choose|i: int| 0 <= i < rest.len() && rest[i] == a;
                    assert(whole[i] == a);
                } else {
                    assert(whole == rest);
                }
            } else {
                if !rest.contains(a) {
                    assert(whole == rest.push(a));
                    assert(whole[whole.len() - 1] == a);
                }
            }
        }
    }
}

/// The routing table consulted by `Context::send`.
#[derive(Debug)]
pub struct Demux {
    subscriptions: Vec<Subscription>,
}

impl Demux {
    pub closed spec fn subs(self) -> Seq<Subscription> {
        self.subscriptions@
    }

    pub fn new() -> (d: Demux)
        ensures
            d.subs() == Seq::<Subscription>::empty(),
    {
        Demux { subscriptions: Vec::new() }
    }

    /// Registers one more edge; later edges stand behind earlier ones.
    pub fn subscribe(&mut self, ltid: u32, addr: Addr)
        ensures
            final(self).subs() == old(self).subs().push(Subscription { ltid, addr }),
    {
        self.subscriptions.push(Subscription { ltid, addr });
    }

    /// Copies the table; the contract pins the copy.
    pub fn dup(&self) -> (d: Demux)
        ensures
            d.subs() == self.subs(),
    {
        let mut subscriptions: Vec<Subscription> = Vec::new();
        let mut k: usize = 0;
        while k < self.subscriptions.len()
            invariant
                k <= self.subscriptions@.len(),
                subscriptions@ == self.subscriptions@.subrange(0, k as int),
            decreases self.subscriptions@.len() - k,
        {
            subscriptions.push(self.subscriptions[k]);
            proof {
                assert(subscriptions@ =~= self.subscriptions@.subrange(0, k as int + 1));
            }
            k = k + 1;
        }
        proof {
            assert(subscriptions@ =~= self.subscriptions@);
        }
        Demux { subscriptions }
    }

    /// The distinct local addresses subscribed to the envelope's type.
    pub fn filter(&self, envelope: &Envelope) -> (r: Vec<Addr>)
        ensures
            r@ == spec_filter(self.subs(), envelope@.message.ltid()),
    {
        let ltid = envelope.message.ltid();
        let mut out: Vec<Addr> = Vec::new();
        let mut k: usize = 0;
        while k < self.subscriptions.len()
            invariant
                k <= self.subscriptions@.len(),
                out@ == spec_filter(self.subscriptions@.subrange(0, k as int), ltid),
            decreases self.subscriptions@.len() - k,
        {
            let s = self.subscriptions[k];
            proof {
                assert(self.subscriptions@.subrange(0, k as int + 1).drop_last()
                    =~= self.subscriptions@.subrange(0, k as int));
                assert(self.subscriptions@.subrange(0, k as int + 1).last() == s);
            }
            if s.ltid == ltid && !contains_addr(&out, s.addr) {
                out.push(s.addr);
            }
            k = k + 1;
        }
        proof {
            assert(self.subscriptions@.subrange(0, self.subscriptions@.len() as int)
                =~= self.subscriptions@);
        }
        out
    }
}

/// Membership in an address list, with an exact contract.
pub fn contains_addr(v: &Vec<Addr>, a: Addr) -> (r: bool)
    ensures
        r == v@.contains(a),
{
    let mut k: usize = 0;
    while k < v.len()
        invariant
            k <= v@.len(),
            forall|j: int| 0 <= j < k ==> v@[j] != a,
        decreases v@.len() - k,
    {
        if v[k].bits == a.bits {
            proof {
                assert(v@[k as int] == a);
            }
            return true;
        }
        k = k + 1;
    }
    false
}

} // verus!
