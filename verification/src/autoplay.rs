//! A scripted player, for measuring with: where it stations the hero, and in
//! what order it considers what to buy.
//!
//! The purchase options arrive cheapest first. The policy then reorders them,
//! and affordability still decides: the player buys the first option in the
//! arranged order that it can pay for.

use vstd::prelude::*;
use crate::tower::Floor;
use crate::types::{ClimberType, PerType};

verus! {

/// How a scripted player spends.
#[derive(Debug, Clone, Copy, PartialEq, Eq, Structural)]
pub enum BuyPolicy {
    /// Buy the cheapest thing you can afford, forever.
    Cheapest,
    /// Keep the three climber ranks level.
    Even,
    /// Rank one type first, always.
    Focus(ClimberType),
    /// Cheapest, but never buy a lock.
    NoLock,
    /// Buy the lock whenever it is affordable, cheapest otherwise.
    LockFirst,
}

impl Default for BuyPolicy {
    fn default() -> (p: Self)
        ensures
            p == BuyPolicy::Cheapest,
    {
        BuyPolicy::Cheapest
    }
}

/// Where a scripted player stations the hero.
#[derive(Debug, Clone, Copy, PartialEq, Eq, Structural)]
pub enum Station {
    /// At the frontier, where the fighting is.
    Frontier,
    /// A fixed number of floors below the frontier.
    Below(u32),
    /// No hero at all.
    Off,
}

impl Default for Station {
    fn default() -> (s: Self)
        ensures
            s == Station::Frontier,
    {
        Station::Frontier
    }
}

/// A player who does nothing. The simulation runs without one.
#[derive(Debug, Clone, Copy, PartialEq, Eq, Structural)]
pub struct Idle;

/// The greedy scripted player: spends every second, stations every tick.
#[derive(Debug, Clone, Copy, PartialEq, Eq, Structural)]
pub struct Greedy {
    pub buy: BuyPolicy,
    pub station: Station,
}

impl Default for Greedy {
    fn default() -> (g: Self)
        ensures
            g.buy == BuyPolicy::Cheapest,
            g.station == Station::Frontier,
    {
        Greedy { buy: BuyPolicy::Cheapest, station: Station::Frontier }
    }
}

/// One thing that can be bought.
#[derive(Debug, Clone, Copy, PartialEq, Eq, Structural)]
pub enum Purchase {
    Rank(ClimberType),
    HeroLevel,
    Lock,
}

/// Where the hero goes under a station rule.
pub open spec fn spec_station_floor(station: Station, frontier: Floor, line: Floor) -> Option<Floor> {
    match station {
        Station::Off => None,
        Station::Frontier => Some(frontier),
        Station::Below(n) => {
            let below: int = if frontier >= n { frontier - n } else { 0 };
            Some((if below >= line { below } else { line as int }) as Floor)
        },
    }
}

pub open spec fn is_lock(p: Purchase) -> bool {
    p is Lock
}

pub open spec fn not_lock() -> spec_fn(Purchase) -> bool {
    |p: Purchase| !is_lock(p)
}

pub open spec fn a_lock() -> spec_fn(Purchase) -> bool {
    |p: Purchase| is_lock(p)
}

pub open spec fn rank_of(want: ClimberType) -> spec_fn(Purchase) -> bool {
    |p: Purchase| p == Purchase::Rank(want)
}

pub open spec fn not_rank_of(want: ClimberType) -> spec_fn(Purchase) -> bool {
    |p: Purchase| p != Purchase::Rank(want)
}

/// The key `Even` orders by: a rank option by the rank it would raise, so the
/// lowest rank comes first; everything else after every rank.
pub open spec fn even_key(p: Purchase, ranks: PerType<u32>) -> u32 {
    match p {
        Purchase::Rank(t) => ranks.at(t),
        _ => u32::MAX,
    }
}

pub open spec fn key_is(ranks: PerType<u32>, v: u32) -> spec_fn(Purchase) -> bool {
    |p: Purchase| even_key(p, ranks) == v
}

/// `out` is `input` sorted by [`even_key`], stably: ordered by key, and for
/// every key the options holding it come out in the order they went in.
pub open spec fn stably_sorted(out: Seq<Purchase>, input: Seq<Purchase>, ranks: PerType<u32>) -> bool {
    &&& forall|i: int, j: int| 0 <= i < j < out.len() ==> even_key(out[i], ranks) <= even_key(out[j], ranks)
    &&& forall|v: u32| #[trigger] out.filter(key_is(ranks, v)) == input.filter(key_is(ranks, v))
}

/// The options in the order a policy considers them.
pub open spec fn arranged(policy: BuyPolicy, out: Seq<Purchase>, input: Seq<Purchase>, ranks: PerType<u32>) -> bool {
    match policy {
        BuyPolicy::Cheapest => out == input,
        BuyPolicy::NoLock => out == input.filter(not_lock()),
        BuyPolicy::LockFirst => out == input.filter(a_lock()) + input.filter(not_lock()),
        BuyPolicy::Focus(want) => out == input.filter(rank_of(want)) + input.filter(not_rank_of(want)),
        BuyPolicy::Even => stably_sorted(out, input, ranks),
    }
}

/// The options of `input` that satisfy `keep`, in order.
fn keep_where(input: &Vec<Purchase>, keep: Ghost<spec_fn(Purchase) -> bool>, focus: Option<ClimberType>, polarity: bool) -> (out: Vec<Purchase>)
    requires
        keep@ == (match focus {
            Some(w) => if polarity { rank_of(w) } else { not_rank_of(w) },
            None => if polarity { a_lock() } else { not_lock() },
        }),
    ensures
        out@ == input@.filter(keep@),
{
    let mut out: Vec<Purchase> = Vec::new();
    let n = input.len();
    let mut i: usize = 0;
    while i < n
        invariant
            i <= n,
            n == input@.len(),
            keep@ == (match focus {
                Some(w) => if polarity { rank_of(w) } else { not_rank_of(w) },
                None => if polarity { a_lock() } else { not_lock() },
            }),
            out@ == input@.subrange(0, i as int).filter(keep@),
        decreases n - i,
    {
        let p = input[i];
        proof {
            assert(input@.subrange(0, i as int + 1) =~= input@.subrange(0, i as int).push(p));
            input@.subrange(0, i as int).lemma_filter_push(p, keep@);
        }
        let hit = match focus {
            Some(w) => p == Purchase::Rank(w),
            None => match p {
                Purchase::Lock => true,
                _ => false,
            },
        };
        if hit == polarity {
            out.push(p);
        }
        i += 1;
    }
    assert(input@.subrange(0, n as int) =~= input@);
    out
}

fn even_key_of(p: Purchase, ranks: &PerType<u32>) -> (k: u32)
    ensures
        k == even_key(p, *ranks),
{
    match p {
        Purchase::Rank(t) => *ranks.get(t),
        _ => u32::MAX,
    }
}

/// Inserting `x` where every element before has a key at most its own and
/// every element after a key above it keeps each key's elements in order.
proof fn lemma_insert_keeps_key_order(r: Seq<Purchase>, p: int, x: Purchase, ranks: PerType<u32>, v: u32)
    requires
        0 <= p <= r.len(),
        forall|i: int| p <= i < r.len() ==> even_key(r[i], ranks) > even_key(x, ranks),
    ensures
        r.insert(p, x).filter(key_is(ranks, v)) == (if even_key(x, ranks) == v {
            r.filter(key_is(ranks, v)).push(x)
        } else {
            r.filter(key_is(ranks, v))
        }),
{
    let pred = key_is(ranks, v);
    let front = r.subrange(0, p);
    let back = r.subrange(p, r.len() as int);
    assert(r =~= front + back);
    assert(r.insert(p, x) =~= front.push(x) + back);
    Seq::filter_distributes_over_add(front, back, pred);
    Seq::filter_distributes_over_add(front.push(x), back, pred);
    front.lemma_filter_push(x, pred);
    if even_key(x, ranks) == v {
        assert forall|i: int| 0 <= i < back.len() implies !pred(back[i]) by {
            assert(back[i] == r[p + i]);
        }
        back.lemma_all_neg_filter_empty(pred);
        assert(back.filter(pred) =~= Seq::<Purchase>::empty());
        assert(front.filter(pred) + Seq::<Purchase>::empty() =~= front.filter(pred));
        assert(front.filter(pred).push(x) + Seq::<Purchase>::empty() =~= front.filter(pred).push(x));
    }
}

/// The options sorted stably by [`even_key`].
fn sort_even(input: &Vec<Purchase>, ranks: &PerType<u32>) -> (out: Vec<Purchase>)
    ensures
        stably_sorted(out@, input@, *ranks),
{
    let mut out: Vec<Purchase> = Vec::new();
    let n = input.len();
    let mut i: usize = 0;
    assert(out@ =~= input@.subrange(0, 0));
    while i < n
        invariant
            i <= n,
            n == input@.len(),
            out@.len() == i,
            stably_sorted(out@, input@.subrange(0, i as int), *ranks),
        decreases n - i,
    {
        let x = input[i];
        let kx = even_key_of(x, ranks);
        // The insertion point: just after the last option whose key is at
        // most this one's, so equal keys keep their arrival order.
        let mut p: usize = out.len();
        while p > 0 && even_key_of(out[p - 1], ranks) > kx
            invariant
                p <= out@.len(),
                forall|k: int| p <= k < out@.len() ==> even_key(out@[k], *ranks) > kx,
            decreases p,
        {
            p -= 1;
        }
        let ghost r = out@;
        let ghost prefix = input@.subrange(0, i as int);
        proof {
            assert forall|v: u32| #[trigger] r.insert(p as int, x).filter(key_is(*ranks, v))
                == prefix.push(x).filter(key_is(*ranks, v)) by {
                lemma_insert_keeps_key_order(r, p as int, x, *ranks, v);
                prefix.lemma_filter_push(x, key_is(*ranks, v));
            }
        }
        out.insert(p, x);
        proof {
            assert(input@.subrange(0, i as int + 1) =~= prefix.push(x));
            assert(out@ =~= r.insert(p as int, x));
        }
        i += 1;
    }
    assert(input@.subrange(0, n as int) =~= input@);
    out
}

impl Greedy {
    pub fn new(buy: BuyPolicy, station: Station) -> (g: Self)
        ensures
            g.buy == buy,
            g.station == station,
    {
        Greedy { buy, station }
    }

    /// Where this player puts the hero: at the frontier, a fixed distance
    /// below it but never below the lock line, or nowhere.
    pub fn station_floor(&self, frontier: Floor, line: Floor) -> (f: Option<Floor>)
        ensures
            f == spec_station_floor(self.station, frontier, line),
    {
        match self.station {
            Station::Off => None,
            Station::Frontier => Some(frontier),
            Station::Below(n) => {
                let below = frontier.saturating_sub(n);
                Some(if below >= line { below } else { line })
            },
        }
    }

    /// The options, which arrive cheapest first, in the order this player
    /// considers them.
    pub fn arrange(&self, options: &Vec<Purchase>, ranks: &PerType<u32>) -> (out: Vec<Purchase>)
        ensures
            arranged(self.buy, out@, options@, *ranks),
    {
        match self.buy {
            BuyPolicy::Cheapest => options.clone(),
            BuyPolicy::NoLock => keep_where(options, Ghost(not_lock()), None, false),
            BuyPolicy::LockFirst => {
                let mut out = keep_where(options, Ghost(a_lock()), None, true);
                let mut rest = keep_where(options, Ghost(not_lock()), None, false);
                out.append(&mut rest);
                out
            },
            BuyPolicy::Focus(want) => {
                let mut out = keep_where(options, Ghost(rank_of(want)), Some(want), true);
                let mut rest = keep_where(options, Ghost(not_rank_of(want)), Some(want), false);
                out.append(&mut rest);
                out
            },
            BuyPolicy::Even => sort_even(options, ranks),
        }
    }
}

} // verus!
