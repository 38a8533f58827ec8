//! Tables of sessions and when each was last mentioned.

use crate::assoc::{AssocMap, MapKey};
use crate::text::texts;
use vstd::prelude::*;

verus! {

/// The sessions that were mentioned within `ttl`.
pub open spec fn live_sessions(m: Map<Seq<char>, u64>, now: u64, ttl: u64) -> Map<Seq<char>, u64> {
    Map::new(
        |s: Seq<char>| m.contains_key(s) && now.saturating_sub(m[s]) <= ttl,
        |s: Seq<char>| m[s],
    )
}

/// The sessions of a table, in the order in which they came.
pub fn session_list(table: &AssocMap<String, u64>) -> (r: Vec<String>)
    ensures
        texts(r@) == table.keys(),
{
    let mut out: Vec<String> = Vec::new();
    let mut i: usize = 0;
    assert(texts(out@) =~= table.keys().take(0));
    while i < table.len()
        invariant
            i <= table.keys().len(),
            texts(out@) == table.keys().take(i as int),
        decreases table.keys().len() - i,
    {
        let (s, _) = table.entry(i);
        let ghost before = texts(out@);
        out.push(s.as_str().to_owned());
        proof {
            assert(texts(out@) =~= before.push(s@));
            assert(table.keys().take(i + 1) =~= table.keys().take(i as int).push(s@));
        }
        i += 1;
    }
    assert(table.keys().take(i as int) =~= table.keys());
    out
}

/// The keys of a table of times that are at most `ttl` old.
pub open spec fn live_keys(
    order: Seq<Seq<char>>,
    m: Map<Seq<char>, u64>,
    now: u64,
    ttl: u64,
) -> Seq<Seq<char>> {
    order.filter(|s: Seq<char>| now.saturating_sub(m[s]) <= ttl)
}

/// Takes out of a table of times what is more than `ttl` old.
pub fn prune(table: &mut AssocMap<String, u64>, now: u64, ttl: u64)
    requires
        old(table).wf(),
    ensures
        final(table).wf(),
        final(table)@ == live_sessions(old(table)@, now, ttl),
        final(table).keys() == live_keys(old(table).keys(), old(table)@, now, ttl),
{
    let ghost start = table@;
    let ghost order = table.keys();
    let ghost live = |s: Seq<char>| now.saturating_sub(start[s]) <= ttl;
    let ghost mut n: int = 0;
    let mut i: usize = 0;
    proof {
        table.lemma_list();
        crate::seqs::lemma_filter_none(order, live);
        assert(table.keys() =~= order.take(0).filter(live) + order.skip(0));
    }
    while i < table.len()
        invariant
            0 <= n <= order.len(),
            table.wf(),
            start == old(table)@,
            order == old(table).keys(),
            order.no_duplicates(),
            live == (|s: Seq<char>| now.saturating_sub(start[s]) <= ttl),
            i == order.take(n).filter(live).len(),
            table.keys() == order.take(n).filter(live) + order.skip(n),
            forall|s: Seq<char>| #[trigger]
                table@.contains_key(s) ==> start.contains_key(s) && start[s] == table@[s],
            forall|s: Seq<char>| #[trigger]
                start.contains_key(s) && now.saturating_sub(start[s]) <= ttl
                    ==> table@.contains_key(s),
            forall|j: int|
                0 <= j < i ==> now.saturating_sub(start[#[trigger] table.keys()[j]]) <= ttl,
        decreases order.len() - n,
    {
        proof {
            table.lemma_list();
            let kept = order.take(n).filter(live);
            assert(n < order.len());
            assert(table.keys()[i as int] == order[n]);
            crate::seqs::lemma_filter_step(order, n, live);
            assert(order.skip(n) =~= seq![order[n]] + order.skip(n + 1));
            assert((kept + order.skip(n)).remove(i as int) =~= kept + order.skip(n + 1));
            assert(kept.push(order[n]) + order.skip(n + 1) =~= kept + order.skip(n));
            assert(table@.contains_key(table.list()[i as int].0.key()));
        }
        let (_, at) = table.entry(i);
        if now.saturating_sub(*at) <= ttl {
            i += 1;
        } else {
            let ghost keys = table.keys();
            let _ = table.remove_at(i);
            proof {
                assert forall|j: int| 0 <= j < i implies now.saturating_sub(
                    start[#[trigger] table.keys()[j]],
                ) <= ttl by {
                    assert(table.keys()[j] == keys[j]);
                }
            }
        }
        proof {
            n = n + 1;
        }
    }
    proof {
        assert(n == order.len());
        assert(order.take(n) =~= order);
        assert(order.skip(n) =~= Seq::empty());
        assert(table.keys() =~= order.filter(live));
        table.lemma_list();
        assert forall|s: Seq<char>| #[trigger] table@.contains_key(s) implies now.saturating_sub(
            start[s],
        ) <= ttl by {
            assert(table.keys().contains(s));
            let j = choose|j: int| 0 <= j < table.keys().len() && table.keys()[j] == s;
            assert(now.saturating_sub(start[table.keys()[j]]) <= ttl);
        }
        assert(table@ =~= live_sessions(start, now, ttl));
    }
}

/// A session is kept as long as it was mentioned within its time, with the time of its
/// last mention; one that was mentioned longer ago is not, and none is added.
pub proof fn law_session_is_kept_for_its_time(
    m: Map<Seq<char>, u64>,
    order: Seq<Seq<char>>,
    s: Seq<char>,
    now: u64,
    ttl: u64,
)
    ensures
        live_sessions(m, now, ttl).contains_key(s) <==> m.contains_key(s) && now <= m[s] + ttl,
        live_sessions(m, now, ttl).contains_key(s) ==> live_sessions(m, now, ttl)[s] == m[s],
        live_keys(order, m, now, ttl).contains(s) <==> order.contains(s) && now <= m[s] + ttl,
{
    let live = |s: Seq<char>| now.saturating_sub(m[s]) <= ttl;
    crate::seqs::lemma_filter_members(order, live);
}

} // verus!
