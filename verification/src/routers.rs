//! The per-group router: a pure function from an envelope to an outcome —
//! one keyed actor, all of them, or none.

use vstd::prelude::*;

use crate::envelope::Envelope;
use crate::messages::MessageView;

verus! {

/// Where a group sends an envelope.
#[derive(Clone, Copy, PartialEq, Eq, Structural, Debug)]
pub enum Outcome {
    /// The actor instance under this key; spawned on first use.
    Unicast(u64),
    /// Every running instance.
    Broadcast,
    /// Nobody.
    Discard,
}

/// What a routing rule does with a matching envelope.
#[derive(Clone, Copy, PartialEq, Eq, Structural, Debug)]
pub enum RouteRule {
    /// Key the message by its own payload value.
    ByValue,
    /// A fixed key.
    ToKey(u64),
    Broadcast,
    Discard,
}

/// The key a payload selects when routed by value.
pub open spec fn spec_key_of(m: MessageView) -> u64 {
    match m {
        MessageView::Value { tag: _, value } => value,
        MessageView::Ping { payload } => payload,
        MessageView::Pong { payload } => payload,
        _ => 0,
    }
}

pub open spec fn spec_apply_rule(rule: RouteRule, m: MessageView) -> Outcome {
    match rule {
        RouteRule::ByValue => Outcome::Unicast(spec_key_of(m)),
        RouteRule::ToKey(k) => Outcome::Unicast(k),
        RouteRule::Broadcast => Outcome::Broadcast,
        RouteRule::Discard => Outcome::Discard,
    }
}

/// The first rule whose type matches decides; otherwise the default.
pub open spec fn spec_route(rules: Seq<(u32, RouteRule)>, otherwise: RouteRule, m: MessageView) -> Outcome
    decreases rules.len(),
{
    if rules.len() == 0 {
        spec_apply_rule(otherwise, m)
    } else if rules.first().0 == m.ltid() {
        spec_apply_rule(rules.first().1, m)
    } else {
        spec_route(rules.drop_first(), otherwise, m)
    }
}

/// A router: type-indexed rules with a default.
#[derive(Debug)]
pub struct Router {
    rules: Vec<(u32, RouteRule)>,
    otherwise: RouteRule,
}

impl Router {
    pub closed spec fn spec_rules(self) -> Seq<(u32, RouteRule)> {
        self.rules@
    }

    pub closed spec fn spec_otherwise(self) -> RouteRule {
        self.otherwise
    }

    pub fn new(otherwise: RouteRule) -> (r: Router)
        ensures
            r.spec_rules() == Seq::<(u32, RouteRule)>::empty(),
            r.spec_otherwise() == otherwise,
    {
        Router { rules: Vec::new(), otherwise }
    }

    /// Appends a rule; earlier rules take precedence.
    pub fn rule(&mut self, ltid: u32, rule: RouteRule)
        ensures
            final(self).spec_rules() == old(self).spec_rules().push((ltid, rule)),
            final(self).spec_otherwise() == old(self).spec_otherwise(),
    {
        self.rules.push((ltid, rule));
    }

    /// Chooses the outcome of an envelope.
    pub fn route(&self, envelope: &Envelope) -> (r: Outcome)
        ensures
            r == spec_route(self.spec_rules(), self.spec_otherwise(), envelope@.message),
    {
        let ghost m = envelope@.message;
        let ltid = envelope.message.ltid();
        let mut k: usize = 0;
        proof {
            assert(self.rules@.subrange(0, self.rules@.len() as int) =~= self.rules@);
        }
        while k < self.rules.len()
            invariant
                k <= self.rules@.len(),
                m == envelope@.message,
                ltid == m.ltid(),
                spec_route(self.rules@, self.otherwise, m) == spec_route(
                    self.rules@.subrange(k as int, self.rules@.len() as int),
                    self.otherwise,
                    m,
                ),
            decreases self.rules@.len() - k,
        {
            let (rule_ltid, rule) = self.rules[k];
            proof {
                let tail = self.rules@.subrange(k as int, self.rules@.len() as int);
                assert(tail.first() == self.rules@[k as int]);
                assert(tail.drop_first() =~= self.rules@.subrange(
                    k as int + 1,
                    self.rules@.len() as int,
                ));
            }
            if rule_ltid == ltid {
                proof {
                    let tail = self.rules@.subrange(k as int, self.rules@.len() as int);
                    assert(spec_route(tail, self.otherwise, m) == spec_apply_rule(rule, m));
                }
                return apply_rule(rule, envelope);
            }
            k = k + 1;
        }
        proof {
            assert(self.rules@.subrange(self.rules@.len() as int, self.rules@.len() as int)
                =~= Seq::<(u32, RouteRule)>::empty());
        }
        apply_rule(self.otherwise, envelope)
    }
}

fn apply_rule(rule: RouteRule, envelope: &Envelope) -> (r: Outcome)
    ensures
        r == spec_apply_rule(rule, envelope@.message),
{
    match rule {
        RouteRule::ByValue => Outcome::Unicast(key_of(&envelope.message)),
        RouteRule::ToKey(k) => Outcome::Unicast(k),
        RouteRule::Broadcast => Outcome::Broadcast,
        RouteRule::Discard => Outcome::Discard,
    }
}

fn key_of(m: &crate::messages::Message) -> (r: u64)
    ensures
        r == spec_key_of(m@),
{
    match m {
        crate::messages::Message::Value { tag: _, value } => *value,
        crate::messages::Message::Ping { payload } => *payload,
        crate::messages::Message::Pong { payload } => *payload,
        _ => 0,
    }
}

} // verus!
