//! What the instructions of a function cost, by program counter: a map of
//! costs, and its entries in the order of the program counters.

use crate::{Cost, ProgramCounter};
use std::collections::BTreeMap;
use vstd::prelude::*;
use vstd::std_specs::btree::axiom_increasing_seq_meaning;
use vstd::std_specs::cmp::OrdSpec;
use vstd::std_specs::iter::IteratorSpec;

verus! {

/// Whether the costs stand in the order of their program counters, each
/// program counter once.
pub open spec fn sorted(costs: Seq<(ProgramCounter, Cost)>) -> bool {
    forall|i: int, j: int|
        0 <= i < j < costs.len() ==> (#[trigger] costs[i]).0 < (#[trigger] costs[j]).0
}

/// How many of the costs belong to program counters below `pc`.
pub open spec fn rank(costs: Seq<(ProgramCounter, Cost)>, pc: ProgramCounter) -> int
    decreases costs.len(),
{
    if costs.len() == 0 {
        0
    } else if costs.last().0 < pc {
        rank(costs.drop_last(), pc) + 1
    } else {
        rank(costs.drop_last(), pc)
    }
}

/// The cost that is recorded for `pc`; nothing where none is.
pub open spec fn cost_at(costs: Seq<(ProgramCounter, Cost)>, pc: ProgramCounter) -> Cost {
    let k = rank(costs, pc);
    if k < costs.len() && costs[k].0 == pc {
        costs[k].1
    } else {
        0
    }
}

/// The costs after one more unit was recorded for `pc`.
pub open spec fn charged(costs: Seq<(ProgramCounter, Cost)>, pc: ProgramCounter) -> Seq<
    (ProgramCounter, Cost),
> {
    let k = rank(costs, pc);
    if k < costs.len() && costs[k].0 == pc {
        costs.update(k, (pc, (costs[k].1 + 1) as Cost))
    } else {
        costs.insert(k, (pc, 1 as Cost))
    }
}

/// In sorted costs, the place that parts the program counters below `pc`
/// from the others is the rank of `pc`.
pub proof fn lemma_rank(costs: Seq<(ProgramCounter, Cost)>, pc: ProgramCounter, k: int)
    requires
        sorted(costs),
        0 <= k <= costs.len(),
        forall|j: int| 0 <= j < k ==> (#[trigger] costs[j]).0 < pc,
        forall|j: int| k <= j < costs.len() ==> (#[trigger] costs[j]).0 >= pc,
    ensures
        rank(costs, pc) == k,
    decreases costs.len(),
{
    if costs.len() > 0 {
        let rest = costs.drop_last();
        if k == costs.len() {
            lemma_rank(rest, pc, k - 1);
        } else {
            lemma_rank(rest, pc, k);
        }
    }
}

/// Recording one more unit keeps the costs sorted.
pub proof fn lemma_charged_sorted(costs: Seq<(ProgramCounter, Cost)>, pc: ProgramCounter, k: int)
    requires
        sorted(costs),
        0 <= k <= costs.len(),
        forall|j: int| 0 <= j < k ==> (#[trigger] costs[j]).0 < pc,
        forall|j: int| k <= j < costs.len() ==> (#[trigger] costs[j]).0 >= pc,
    ensures
        sorted(charged(costs, pc)),
{
    lemma_rank(costs, pc, k);
}

/// The sum of the first `upto` costs.
pub open spec fn summed(costs: Seq<(ProgramCounter, Cost)>, upto: int) -> nat
    decreases upto,
{
    if upto <= 0 {
        0
    } else {
        summed(costs, upto - 1) + costs[upto - 1].1 as nat
    }
}

/// The rank of a program counter lies within the costs.
pub proof fn lemma_rank_bounds(costs: Seq<(ProgramCounter, Cost)>, pc: ProgramCounter)
    ensures
        0 <= rank(costs, pc) <= costs.len(),
    decreases costs.len(),
{
    if costs.len() > 0 {
        lemma_rank_bounds(costs.drop_last(), pc);
    }
}

/// Where one cost changes, the sum changes by as much.
pub proof fn lemma_summed_update(
    costs: Seq<(ProgramCounter, Cost)>,
    k: int,
    entry: (ProgramCounter, Cost),
    upto: int,
)
    requires
        0 <= k < costs.len(),
        0 <= upto <= costs.len(),
    ensures
        summed(costs.update(k, entry), upto) == summed(costs, upto) + if k < upto {
            entry.1 - costs[k].1
        } else {
            0
        },
    decreases upto,
{
    if upto > 0 {
        lemma_summed_update(costs, k, entry, upto - 1);
    }
}

/// Where one cost is added, the sum rises by it.
pub proof fn lemma_summed_insert(
    costs: Seq<(ProgramCounter, Cost)>,
    k: int,
    entry: (ProgramCounter, Cost),
    upto: int,
)
    requires
        0 <= k <= costs.len(),
        0 <= upto <= costs.len() + 1,
    ensures
        summed(costs.insert(k, entry), upto) == if upto <= k {
            summed(costs, upto) as int
        } else {
            summed(costs, upto - 1) + entry.1
        },
    decreases upto,
{
    if upto > 0 {
        lemma_summed_insert(costs, k, entry, upto - 1);
    }
}

/// Recording one more unit makes the costs one unit more together.
pub proof fn lemma_summed_charged(costs: Seq<(ProgramCounter, Cost)>, pc: ProgramCounter)
    requires
        cost_at(costs, pc) < Cost::MAX,
    ensures
        summed(charged(costs, pc), charged(costs, pc).len() as int) == summed(
            costs,
            costs.len() as int,
        ) + 1,
{
    lemma_rank_bounds(costs, pc);
    let k = rank(costs, pc);
    if k < costs.len() && costs[k].0 == pc {
        lemma_summed_update(costs, k, (pc, (costs[k].1 + 1) as Cost), costs.len() as int);
    } else {
        lemma_summed_insert(costs, k, (pc, 1 as Cost), costs.len() as int + 1);
    }
}

/// In sorted costs, the rank of `pc` parts the program counters below `pc`
/// from the others.
pub proof fn lemma_rank_sorted(costs: Seq<(ProgramCounter, Cost)>, pc: ProgramCounter)
    requires
        sorted(costs),
    ensures
        0 <= rank(costs, pc) <= costs.len(),
        forall|j: int| 0 <= j < rank(costs, pc) ==> (#[trigger] costs[j]).0 < pc,
        forall|j: int| rank(costs, pc) <= j < costs.len() ==> (#[trigger] costs[j]).0 >= pc,
    decreases costs.len(),
{
    if costs.len() > 0 {
        let rest = costs.drop_last();
        lemma_rank_sorted(rest, pc);
        if costs.last().0 >= pc {
            assert forall|j: int| 0 <= j < rank(costs, pc) implies (#[trigger] costs[j]).0 < pc by {
                assert(rest[j] == costs[j]);
            }
            assert forall|j: int| rank(costs, pc) <= j < costs.len() implies (#[trigger] costs[j]).0
                >= pc by {
                if j < rest.len() {
                    assert(rest[j] == costs[j]);
                }
            }
        }
    }
}

/// Recording one more unit for `pc` raises the cost of `pc` by one and
/// leaves the cost of every other program counter as it is.
pub proof fn lemma_charged_cost_at(
    costs: Seq<(ProgramCounter, Cost)>,
    pc: ProgramCounter,
    other: ProgramCounter,
)
    requires
        sorted(costs),
        cost_at(costs, pc) < Cost::MAX,
    ensures
        cost_at(charged(costs, pc), pc) == cost_at(costs, pc) + 1,
        other != pc ==> cost_at(charged(costs, pc), other) == cost_at(costs, other),
{
    let after = charged(costs, pc);
    let k = rank(costs, pc);
    let j = rank(costs, other);
    lemma_rank_sorted(costs, pc);
    lemma_rank_sorted(costs, other);
    if k < costs.len() && costs[k].0 == pc {
        lemma_rank(after, pc, k);
        lemma_rank(after, other, j);
    } else {
        lemma_rank(after, pc, k);
        if other < pc {
            assert(j <= k);
            lemma_rank(after, other, j);
        } else if other > pc {
            assert(j >= k) by {
                if j < k {
                    assert(costs[j].0 >= other);
                }
            }
            lemma_rank(after, other, j + 1);
        }
    }
}

/// Whether the costs are those that the map holds: they stand in the order
/// of their program counters, each is an entry of the map, and every entry
/// of the map is among them.
pub open spec fn represents(
    costs: Seq<(ProgramCounter, Cost)>,
    m: Map<ProgramCounter, Cost>,
) -> bool {
    &&& sorted(costs)
    &&& forall|i: int|
        0 <= i < costs.len() ==> m.contains_key((#[trigger] costs[i]).0) && m[costs[i].0]
            == costs[i].1
    &&& forall|k: ProgramCounter| #[trigger]
        m.contains_key(k) ==> exists|i: int| 0 <= i < costs.len() && (#[trigger] costs[i]).0 == k
}

/// The entries of the map in the order of their program counters.
pub open spec fn entries(m: Map<ProgramCounter, Cost>) -> Seq<(ProgramCounter, Cost)> {
    choose|costs: Seq<(ProgramCounter, Cost)>| represents(costs, m)
}

/// A map has its entries in the order of their program counters in one way
/// only.
pub proof fn lemma_represents_unique(
    a: Seq<(ProgramCounter, Cost)>,
    b: Seq<(ProgramCounter, Cost)>,
    m: Map<ProgramCounter, Cost>,
)
    requires
        represents(a, m),
        represents(b, m),
    ensures
        a == b,
    decreases a.len(),
{
    if a.len() == 0 {
        if b.len() > 0 {
            assert(m.contains_key(b[0].0));
        }
    } else {
        let i = choose|i: int| 0 <= i < a.len() && (#[trigger] a[i]).0 == b.last().0;
        let top = a.last().0;
        let rest = m.remove(top);
        assert(represents(a.drop_last(), rest)) by {
            assert forall|k: ProgramCounter| #[trigger] rest.contains_key(k) implies exists|i: int|
                0 <= i < a.drop_last().len() && (#[trigger] a.drop_last()[i]).0 == k by {
                let i = choose|i: int| 0 <= i < a.len() && (#[trigger] a[i]).0 == k;
                assert(a.drop_last()[i] == a[i]);
            }
        }
        assert(represents(b.drop_last(), rest)) by {
            assert forall|k: ProgramCounter| #[trigger] rest.contains_key(k) implies exists|i: int|
                0 <= i < b.drop_last().len() && (#[trigger] b.drop_last()[i]).0 == k by {
                let i = choose|i: int| 0 <= i < b.len() && (#[trigger] b[i]).0 == k;
                assert(b.drop_last()[i] == b[i]);
            }
        }
        lemma_represents_unique(a.drop_last(), b.drop_last(), rest);
        assert(a =~= a.drop_last().push(a.last()));
    }
}

/// The costs that a map holds are its entries.
pub proof fn lemma_entries(costs: Seq<(ProgramCounter, Cost)>, m: Map<ProgramCounter, Cost>)
    requires
        represents(costs, m),
    ensures
        entries(m) == costs,
{
    lemma_represents_unique(entries(m), costs, m);
}

/// The cost that the costs of a map record for a program counter is what
/// the map holds for it, and one more unit in the costs is one more in the
/// map.
pub proof fn lemma_charged_represents(
    costs: Seq<(ProgramCounter, Cost)>,
    m: Map<ProgramCounter, Cost>,
    pc: ProgramCounter,
)
    requires
        represents(costs, m),
    ensures
        cost_at(costs, pc) == if m.contains_key(pc) {
            m[pc]
        } else {
            0
        },
        represents(charged(costs, pc), m.insert(pc, (cost_at(costs, pc) + 1) as Cost)),
{
    let k = rank(costs, pc);
    let after = charged(costs, pc);
    let n = m.insert(pc, (cost_at(costs, pc) + 1) as Cost);
    lemma_rank_sorted(costs, pc);
    lemma_charged_sorted(costs, pc, k);
    if m.contains_key(pc) {
        let i = choose|i: int| 0 <= i < costs.len() && (#[trigger] costs[i]).0 == pc;
        assert(i == k);
    }
    if k < costs.len() && costs[k].0 == pc {
        assert forall|key: ProgramCounter| #[trigger] n.contains_key(key) implies exists|i: int|
            0 <= i < after.len() && (#[trigger] after[i]).0 == key by {
            if key == pc {
                assert(after[k].0 == key);
            } else {
                let i = choose|i: int| 0 <= i < costs.len() && (#[trigger] costs[i]).0 == key;
                assert(after[i].0 == key);
            }
        }
    } else {
        assert forall|key: ProgramCounter| #[trigger] n.contains_key(key) implies exists|i: int|
            0 <= i < after.len() && (#[trigger] after[i]).0 == key by {
            if key == pc {
                assert(after[k].0 == key);
            } else {
                let i = choose|i: int| 0 <= i < costs.len() && (#[trigger] costs[i]).0 == key;
                if i < k {
                    assert(after[i] == costs[i]);
                } else {
                    assert(after[i + 1] == costs[i]);
                }
            }
        }
    }
}

/// The entries of the map, in the order of their program counters.
pub fn entries_of(m: &BTreeMap<ProgramCounter, Cost>) -> (v: Vec<(ProgramCounter, Cost)>)
    ensures
        represents(v@, m@),
        v@ == entries(m@),
{
    let mut v: Vec<(ProgramCounter, Cost)> = Vec::new();
    let iter = m.iter();
    let ghost keys = iter.remaining().map_values(|kv: (&ProgramCounter, &Cost)| *kv.0);
    for kv in it: iter
        invariant
            it.seq() == iter.remaining(),
            v@.len() == it.index(),
            forall|i: int|
                0 <= i < v.len() ==> (#[trigger] v[i]).0 == *it.seq()[i].0 && v[i].1
                    == *it.seq()[i].1,
    {
        v.push((*kv.0, *kv.1));
    }
    proof {
        axiom_increasing_seq_meaning::<ProgramCounter>(keys);
        assert forall|i: int, j: int| 0 <= i < j < v.len() implies (#[trigger] v[i]).0 < (
        #[trigger] v[j]).0 by {
            assert(keys[i].cmp_spec(&keys[j]) is Less);
        }
        assert forall|k: ProgramCounter| #[trigger] m@.contains_key(k) implies exists|i: int|
            0 <= i < v.len() && (#[trigger] v[i]).0 == k by {
            let i = choose|i: int|
                0 <= i < iter.remaining().len() && iter.remaining()[i] == (&k, &m@[k]);
            assert(v[i].0 == k);
        }
        lemma_entries(v@, m@);
    }
    v
}

} // verus!
