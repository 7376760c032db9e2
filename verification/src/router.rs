//! Rule-based routing: the asynchronous delivery discipline.
//!
//! A router holds a mutable set of rules, each a match predicate under a
//! unique, monotonically increasing identity.  When a frame arrives, the
//! router names every rule the frame matches; whoever runs the router
//! clones the frame to each named rule's destination and drops rules
//! whose handles are gone.

use vstd::prelude::*;
use vstd::seq_lib::*;

use crate::call::{lemma_call_view_injective, Call};
use crate::packet::Packet;

verus! {

/// Match predicate of one routing rule.
#[derive(Clone, Copy, Debug)]
pub enum RuleMatch {
    Data { port: u8, src: Call, dst: Call },
    ConnectionEstablished { port: u8, src: Call, dst: Call },
}

impl RuleMatch {
    /// What the predicate accepts: data frames, or connection-established
    /// frames, of one circuit.
    pub open spec fn spec_matches(&self, p: Packet) -> bool {
        match *self {
            RuleMatch::Data { port, src, dst } => match p {
                Packet::Data { port: p2, pid: _, src: s2, dst: d2, data: _ } => p2 == port && s2
                    == src && d2 == dst,
                _ => false,
            },
            RuleMatch::ConnectionEstablished { port, src, dst } => match p {
                Packet::ConnectionEstablished { port: p2, pid: _, src: s2, dst: d2 } => p2 == port
                    && s2 == src && d2 == dst,
                _ => false,
            },
        }
    }

    /// Decide whether the frame matches this predicate.
    pub fn matches(&self, packet: &Packet) -> (r: bool)
        ensures
            r == self.spec_matches(*packet),
    {
        match self {
            RuleMatch::Data { port, src, dst } => match packet {
                Packet::Data { port: p2, pid: _, src: s2, dst: d2, data: _ } => {
                    let r = *p2 == *port && call_eq(s2, src) && call_eq(d2, dst);
                    r
                },
                _ => false,
            },
            RuleMatch::ConnectionEstablished { port, src, dst } => match packet {
                Packet::ConnectionEstablished { port: p2, pid: _, src: s2, dst: d2 } => {
                    let r = *p2 == *port && call_eq(s2, src) && call_eq(d2, dst);
                    r
                },
                _ => false,
            },
        }
    }
}

/// Value equality of two callsigns.
fn call_eq(a: &Call, b: &Call) -> (r: bool)
    ensures
        r == (*a == *b),
{
    let eq = a.same(b);
    proof {
        if a@ == b@ {
            lemma_call_view_injective(*a, *b);
        }
    }
    eq
}

/// One routing rule: a predicate under its identity.  The delivery
/// destination belongs to whoever runs the router.
#[derive(Clone, Copy, Debug)]
pub struct Rule {
    pub ident: u64,
    pub m: RuleMatch,
}

/// The identities of the rules in `rs` that match `p`, in rule order.
pub open spec fn spec_route(rs: Seq<Rule>, p: Packet) -> Seq<u64>
    decreases rs.len(),
{
    if rs.len() == 0 {
        Seq::empty()
    } else if rs.last().m.spec_matches(p) {
        spec_route(rs.drop_last(), p).push(rs.last().ident)
    } else {
        spec_route(rs.drop_last(), p)
    }
}

/// A mutable set of routing rules under fresh identities.
pub struct Router {
    next_ident: u64,
    rules: Vec<Rule>,
}

impl Router {
    /// The rules currently held, in insertion order.
    pub closed spec fn rules(&self) -> Seq<Rule> {
        self.rules@
    }

    /// The identity counter: every held identity is below it.
    pub closed spec fn spec_next(&self) -> u64 {
        self.next_ident
    }

    /// Identities are strictly increasing along the list and below the
    /// counter, so every identity is unique and a fresh one always
    /// remains.
    pub open spec fn wf(&self) -> bool {
        &&& forall|i: int, j: int|
            0 <= i < j < self.rules().len() ==> (#[trigger] self.rules()[i]).ident < (
            #[trigger] self.rules()[j]).ident
        &&& forall|i: int|
            0 <= i < self.rules().len() ==> (#[trigger] self.rules()[i]).ident
                <= self.spec_next()
    }

    /// An empty router.
    pub fn new() -> (r: Router)
        ensures
            r.rules() == Seq::<Rule>::empty(),
            r.spec_next() == 0,
            r.wf(),
    {
        Router { next_ident: 0, rules: Vec::new() }
    }

    /// Install a rule under a fresh identity and return that identity.
    pub fn add(&mut self, m: RuleMatch) -> (r: u64)
        requires
            old(self).wf(),
            old(self).spec_next() < 0xFFFF_FFFF_FFFF_FFFF,
        ensures
            final(self).wf(),
            r == old(self).spec_next() + 1,
            final(self).spec_next() == r,
            final(self).rules() == old(self).rules().push(Rule { ident: r, m }),
    {
        self.next_ident = self.next_ident + 1;
        let ident = self.next_ident;
        self.rules.push(Rule { ident, m });
        proof {
            assert forall|a: int, b: int|
                0 <= a < b < self.rules@.len() implies (#[trigger] self.rules@[a]).ident < (
            #[trigger] self.rules@[b]).ident by {
                if b < self.rules@.len() - 1 {
                    assert(old(self).rules()[a].ident < old(self).rules()[b].ident);
                } else {
                    assert(old(self).rules()[a].ident <= old(self).spec_next());
                }
            }
        }
        ident
    }

    /// Remove the rule with the given identity, if it is still held.
    pub fn del(&mut self, ident: u64)
        requires
            old(self).wf(),
        ensures
            final(self).wf(),
            final(self).spec_next() == old(self).spec_next(),
            final(self).rules() == old(self).rules().filter(
                |r: Rule| r.ident != ident,
            ),
    {
        let ghost pred = |r: Rule| r.ident != ident;
        let mut kept: Vec<Rule> = Vec::new();
        let mut i: usize = 0;
        while i < self.rules.len()
            invariant
                0 <= i <= self.rules().len(),
                old(self).wf(),
                self.rules() == old(self).rules(),
                self.spec_next() == old(self).spec_next(),
                kept@ == old(self).rules().take(i as int).filter(pred),
                pred == (|r: Rule| r.ident != ident),
            decreases self.rules().len() - i,
        {
            let r = self.rules[i];
            proof {
                reveal(Seq::filter);
                assert(r == old(self).rules()[i as int]);
                assert(old(self).rules().take(i + 1).drop_last() =~= old(self).rules().take(
                    i as int,
                ));
                assert(old(self).rules().take(i + 1).last() == old(self).rules()[i as int]);
            }
            if r.ident != ident {
                kept.push(r);
            }
            i += 1;
        }
        proof {
            assert(old(self).rules().take(old(self).rules().len() as int) =~= old(self).rules());
        }
        self.rules = kept;
        proof {
            let rs = old(self).rules();
            let f = rs.filter(pred);
            lemma_filter_keeps_order(rs, pred);
            assert forall|a: int| 0 <= a < f.len() implies (#[trigger] f[a]).ident
                <= self.spec_next() by {
                let k = choose|k: int| 0 <= k < rs.len() && rs[k] == f[a];
                assert(rs[k].ident <= old(self).spec_next());
            }
        }
    }

    /// Name every rule the frame matches, in rule order.  The caller
    /// delivers a clone of the frame to each named rule's destination;
    /// an empty answer means the frame matched nobody.
    pub fn route(&self, packet: &Packet) -> (r: Vec<u64>)
        ensures
            r@ == spec_route(self.rules(), *packet),
    {
        let mut out: Vec<u64> = Vec::new();
        let mut i: usize = 0;
        while i < self.rules.len()
            invariant
                0 <= i <= self.rules().len(),
                out@ == spec_route(self.rules().take(i as int), *packet),
            decreases self.rules().len() - i,
        {
            proof {
                assert(self.rules().take(i + 1).drop_last() =~= self.rules().take(i as int));
                assert(self.rules().take(i + 1).last() == self.rules()[i as int]);
            }
            let rule = &self.rules[i];
            if rule.m.matches(packet) {
                out.push(rule.ident);
            }
            i += 1;
        }
        proof {
            assert(self.rules().take(self.rules().len() as int) =~= self.rules());
        }
        out
    }
}

/// Filtering an identity-increasing rule list keeps the order, and every
/// kept rule occurs in the original list.
proof fn lemma_filter_keeps_order(s: Seq<Rule>, pred: spec_fn(Rule) -> bool)
    requires
        forall|i: int, j: int|
            0 <= i < j < s.len() ==> (#[trigger] s[i]).ident < (#[trigger] s[j]).ident,
    ensures
        forall|i: int, j: int|
            0 <= i < j < s.filter(pred).len() ==> (#[trigger] s.filter(pred)[i]).ident < (
            #[trigger] s.filter(pred)[j]).ident,
        forall|i: int|
            0 <= i < s.filter(pred).len() ==> exists|k: int|
                0 <= k < s.len() && s[k] == (#[trigger] s.filter(pred)[i]),
    decreases s.len(),
{
    reveal(Seq::filter);
    if s.len() > 0 {
        let st = s.drop_last();
        lemma_filter_keeps_order(st, pred);
        let f = s.filter(pred);
        let ft = st.filter(pred);
        assert forall|i: int| 0 <= i < f.len() implies exists|k: int|
            0 <= k < s.len() && s[k] == (#[trigger] f[i]) by {
            if pred(s.last()) && i == f.len() - 1 {
                assert(s[s.len() - 1] == f[i]);
            } else {
                assert(f[i] == ft[i]);
                let k = choose|k: int| 0 <= k < st.len() && st[k] == ft[i];
                assert(s[k] == f[i]);
            }
        }
        assert forall|i: int, j: int| 0 <= i < j < f.len() implies (#[trigger] f[i]).ident < (
        #[trigger] f[j]).ident by {
            if pred(s.last()) && j == f.len() - 1 {
                assert(f[i] == ft[i]);
                let k = choose|k: int| 0 <= k < st.len() && st[k] == ft[i];
                assert(s[k].ident < s[s.len() - 1].ident);
            } else {
                assert(f[i] == ft[i] && f[j] == ft[j]);
            }
        }
    }
}

} // verus!
