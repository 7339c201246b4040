use vstd::prelude::*;
use bevy::utils::HashMap;
use crate::card::{Card, PileId};

verus! {

/// Counts of cards per slot, kept in a `bevy::utils::HashMap` keyed by the
/// slot's coordinates.
#[verifier::external_body]
pub struct PileTable {
    counts: HashMap<(i64, i64), usize>,
}

/// What a table holds: each slot's coordinates and the count stored there.
pub uninterp spec fn table_contents(t: PileTable) -> Map<(i64, i64), usize>;

pub open spec fn no_slots() -> Map<(i64, i64), usize> {
    Map::empty()
}

pub open spec fn key_of(id: PileId) -> (i64, i64) {
    (id.x, id.y)
}

/// Number of the first `n` cards that lie in slot `id`.
pub open spec fn occupancy_upto(cards: Seq<Card>, n: int, id: PileId) -> nat
    decreases n,
{
    if n <= 0 {
        0
    } else {
        occupancy_upto(cards, n - 1, id) + if cards[n - 1].pile == Some(id) {
            1nat
        } else {
            0nat
        }
    }
}

/// Number of cards that lie in slot `id`.
pub open spec fn occupancy(cards: Seq<Card>, id: PileId) -> nat {
    occupancy_upto(cards, cards.len() as int, id)
}

impl PileTable {
    /// The count stored for `id`, zero where there is none.
    pub open spec fn count_spec(self, id: PileId) -> nat {
        if table_contents(self).contains_key(key_of(id)) {
            table_contents(self)[key_of(id)] as nat
        } else {
            0
        }
    }

    /// Relies on `HashMap::default` (hashbrown's, behind `bevy::utils::HashMap`):
    /// a new map holds no entry.
    #[verifier::external_body]
    fn empty() -> (r: PileTable)
        ensures
            table_contents(r) == no_slots(),
    {
        PileTable { counts: HashMap::default() }
    }

    /// Relies on `HashMap::get`: the value stored under `k`, if any.
    #[verifier::external_body]
    fn lookup(&self, k: (i64, i64)) -> (r: Option<usize>)
        ensures
            r == (if table_contents(*self).contains_key(k) {
                Some(table_contents(*self)[k])
            } else {
                None
            }),
    {
        self.counts.get(&k).copied()
    }

    /// Relies on `HashMap::insert`: `k` now maps to `v`, other keys are untouched.
    #[verifier::external_body]
    fn store(&mut self, k: (i64, i64), v: usize)
        ensures
            table_contents(*final(self)) == table_contents(*old(self)).insert(k, v),
    {
        self.counts.insert(k, v);
    }

    /// How many cards were counted in slot `id`; zero for a slot never seen.
    pub fn count(&self, id: PileId) -> (r: usize)
        ensures
            r as nat == self.count_spec(id),
    {
        match self.lookup((id.x, id.y)) {
            Some(c) => c,
            None => 0,
        }
    }
}

proof fn lemma_occupancy_bounded(cards: Seq<Card>, n: int, id: PileId)
    requires
        0 <= n <= cards.len(),
    ensures
        occupancy_upto(cards, n, id) <= n,
    decreases n,
{
    if n > 0 {
        lemma_occupancy_bounded(cards, n - 1, id);
    }
}

proof fn lemma_occupancy_witness(cards: Seq<Card>, n: int, id: PileId)
    requires
        0 <= n <= cards.len(),
        occupancy_upto(cards, n, id) > 0,
    ensures
        exists|j: int| 0 <= j < n && cards[j].pile == Some(id),
    decreases n,
{
    if cards[n - 1].pile != Some(id) {
        lemma_occupancy_witness(cards, n - 1, id);
    }
}

/// Counts, for every slot, the cards that lie in it.
pub fn pile_occupancy(cards: &Vec<Card>) -> (r: PileTable)
    ensures
        forall|id: PileId| #[trigger] r.count_spec(id) == occupancy(cards@, id),
{
    let mut table = PileTable::empty();
    let mut i: usize = 0;
    while i < cards.len()
        invariant
            i <= cards.len(),
            forall|id: PileId| #[trigger] table.count_spec(id) == occupancy_upto(cards@, i as int, id),
        decreases cards.len() - i,
    {
        let c = cards[i];
        let ghost before = table;
        match c.pile {
            Some(id) => {
                let n = table.count(id);
                proof {
                    lemma_occupancy_bounded(cards@, i as int, id);
                }
                table.store((id.x, id.y), n + 1);
                proof {
                    assert forall|p: PileId| #[trigger]
                        table.count_spec(p) == occupancy_upto(cards@, i + 1, p) by {
                        assert(before.count_spec(p) == occupancy_upto(cards@, i as int, p));
                        if p != id {
                            assert(key_of(p) != (id.x, id.y));
                        }
                    }
                }
            },
            None => {
                proof {
                    assert forall|p: PileId| #[trigger]
                        table.count_spec(p) == occupancy_upto(cards@, i + 1, p) by {
                        assert(before.count_spec(p) == occupancy_upto(cards@, i as int, p));
                    }
                }
            },
        }
        i += 1;
    }
    table
}

/// The slots holding more than one card, each listed once.
pub fn pile_markers(cards: &Vec<Card>) -> (r: Vec<PileId>)
    ensures
        r@.no_duplicates(),
        forall|id: PileId| r@.contains(id) <==> occupancy(cards@, id) > 1,
{
    let table = pile_occupancy(cards);
    let mut shown = PileTable::empty();
    let mut out: Vec<PileId> = Vec::new();
    let mut i: usize = 0;
    while i < cards.len()
        invariant
            i <= cards.len(),
            forall|id: PileId| #[trigger] table.count_spec(id) == occupancy(cards@, id),
            forall|id: PileId|
                table_contents(shown).contains_key(#[trigger] key_of(id)) <==> out@.contains(id),
            out@.no_duplicates(),
            forall|id: PileId| out@.contains(id) ==> occupancy(cards@, id) > 1,
            forall|j: int|
                0 <= j < i && (#[trigger] cards@[j]).pile is Some && occupancy(
                    cards@,
                    cards@[j].pile->Some_0,
                ) > 1 ==> out@.contains(cards@[j].pile->Some_0),
        decreases cards.len() - i,
    {
        let c = cards[i];
        match c.pile {
            Some(id) => {
                if table.count(id) > 1 && shown.lookup((id.x, id.y)).is_none() {
                    proof {
                        assert(key_of(id) == (id.x, id.y));
                        assert(!out@.contains(id));
                    }
                    let ghost before = out@;
                    let ghost shown_before = shown;
                    shown.store((id.x, id.y), 1);
                    out.push(id);
                    proof {
                        assert forall|p: PileId|
                            table_contents(shown).contains_key(#[trigger] key_of(p))
                                <==> out@.contains(p) by {
                            assert(table_contents(shown_before).contains_key(key_of(p))
                                <==> before.contains(p));
                            if p == id {
                                assert(out@[out@.len() - 1] == id);
                            } else {
                                assert(key_of(p) != (id.x, id.y));
                                lemma_push_contains(before, id, p);
                            }
                        }
                        assert forall|p: PileId| out@.contains(p) implies occupancy(cards@, p)
                            > 1 by {
                            lemma_push_contains(before, id, p);
                        }
                        assert forall|j: int|
                            0 <= j < i + 1 && (#[trigger] cards@[j]).pile is Some && occupancy(
                                cards@,
                                cards@[j].pile->Some_0,
                            ) > 1 implies out@.contains(cards@[j].pile->Some_0) by {
                            lemma_push_contains(before, id, cards@[j].pile->Some_0);
                        }
                    }
                } else {
                    proof {
                        assert(key_of(id) == (id.x, id.y));
                        assert(cards@[i as int] == c);
                    }
                }
            },
            None => {
                proof {
                    assert(cards@[i as int] == c);
                }
            },
        }
        i += 1;
    }
    proof {
        assert forall|id: PileId| occupancy(cards@, id) > 1 implies out@.contains(id) by {
            lemma_occupancy_witness(cards@, cards@.len() as int, id);
        }
    }
    out
}

proof fn lemma_push_contains(s: Seq<PileId>, x: PileId, p: PileId)
    ensures
        s.push(x).contains(p) <==> s.contains(p) || p == x,
{
    if s.contains(p) {
        let k = choose|k: int| 0 <= k < s.len() && s[k] == p;
        assert(s.push(x)[k] == p);
    }
    if p == x {
        assert(s.push(x)[s.len() as int] == p);
    }
    if s.push(x).contains(p) && p != x {
        let k = choose|k: int| 0 <= k < s.push(x).len() && s.push(x)[k] == p;
        assert(s[k] == p);
    }
}

} // verus!
