//! The order in which the rows of a report are shown.

use vstd::prelude::*;
use crate::text::{bytes_less, lemma_lex_irreflexive, lemma_lex_total, lemma_lex_transitive, lex_less};

verus! {

/// What a row is ranked by.
pub struct RankKey<'a> {
    pub severity: u8,
    pub total: usize,
    pub term: &'a [u8],
}

/// A rank key as plain numbers and bytes.
pub struct Rank {
    pub severity: nat,
    pub total: nat,
    pub term: Seq<u8>,
}

impl<'a> View for RankKey<'a> {
    type V = Rank;

    open spec fn view(&self) -> Rank {
        Rank { severity: self.severity as nat, total: self.total as nat, term: self.term@ }
    }
}

/// Row `a` is shown before row `b`: the higher severity first, then the
/// higher total, then the term that comes first in the dictionary.
pub open spec fn precedes(a: Rank, b: Rank) -> bool {
    ||| a.severity > b.severity
    ||| a.severity == b.severity && a.total > b.total
    ||| a.severity == b.severity && a.total == b.total && lex_less(a.term, b.term)
}

/// `precedes` is a strict total order: nothing precedes itself, of two
/// different keys one precedes the other, and it is transitive.
pub proof fn lemma_precedes_order(a: Rank, b: Rank, c: Rank)
    ensures
        !precedes(a, a),
        a == b || precedes(a, b) || precedes(b, a),
        !(precedes(a, b) && precedes(b, a)),
        precedes(a, b) && precedes(b, c) ==> precedes(a, c),
        !precedes(b, a) && !precedes(c, b) ==> !precedes(c, a),
{
    lemma_lex_irreflexive(a.term);
    lemma_lex_total(a.term, b.term);
    lemma_lex_total(b.term, c.term);
    lemma_lex_total(a.term, c.term);
    if lex_less(a.term, b.term) && lex_less(b.term, c.term) {
        lemma_lex_transitive(a.term, b.term, c.term);
    }
    if lex_less(c.term, b.term) && lex_less(b.term, a.term) {
        lemma_lex_transitive(c.term, b.term, a.term);
    }
}

/// `order` lists every position below `n` once, and nothing else.
pub open spec fn lists_all(order: Seq<usize>, n: nat) -> bool {
    &&& order.len() == n
    &&& forall|i: int| 0 <= i < n ==> #[trigger] order[i] < n
    &&& forall|p: usize| p < n ==> #[trigger] order.contains(p)
    &&& order.no_duplicates()
}

/// The places `x` and `y` of `order`, `x` before `y`, are in order: the key
/// at `y` does not precede the key at `x`, and of two equal keys the one that
/// stood first among the keys comes first.
pub open spec fn in_order(keys: Seq<Rank>, order: Seq<usize>, x: int, y: int) -> bool {
    &&& !precedes(keys[order[y] as int], keys[order[x] as int])
    &&& keys[order[x] as int] == keys[order[y] as int] ==> order[x] < order[y]
}

/// Every two places of `order` are in order.
pub open spec fn ranked(keys: Seq<Rank>, order: Seq<usize>) -> bool {
    forall|x: int, y: int| 0 <= x < y < order.len() ==> #[trigger] in_order(keys, order, x, y)
}

/// Whether the row of key `a` is shown before the row of key `b`.
pub fn key_precedes(a: &RankKey, b: &RankKey) -> (r: bool)
    ensures
        r == precedes(a@, b@),
{
    if a.severity != b.severity {
        a.severity > b.severity
    } else if a.total != b.total {
        a.total > b.total
    } else {
        bytes_less(a.term, b.term)
    }
}

/// The positions of `keys` in the order in which their rows are shown.
pub fn rank_order(keys: &Vec<RankKey>) -> (order: Vec<usize>)
    ensures
        lists_all(order@, keys@.len()),
        ranked(keys@.map_values(|k: RankKey| k@), order@),
{
    let n = keys.len();
    let ghost ranks = keys@.map_values(|k: RankKey| k@);
    let mut order: Vec<usize> = Vec::new();
    let mut i: usize = 0;
    while i < n
        invariant
            i <= n,
            order@.len() == i,
            forall|p: int| 0 <= p < i ==> order@[p] == p,
        decreases n - i,
    {
        order.push(i);
        i += 1;
    }
    assert forall|p: usize| p < n implies #[trigger] order@.contains(p) by {
        assert(order@[p as int] == p);
    }
    let mut done: usize = 0;
    while done < n
        invariant
            done <= n,
            n == keys@.len(),
            ranks == keys@.map_values(|k: RankKey| k@),
            lists_all(order@, n as nat),
            forall|p: int| done <= p < n ==> order@[p] == p,
            forall|x: int| 0 <= x < done ==> order@[x] < done,
            forall|x: int, y: int| 0 <= x < y < done ==> #[trigger] in_order(ranks, order@, x, y),
        decreases n - done,
    {
        let mut j: usize = done;
        while j > 0 && key_precedes(&keys[order[j]], &keys[order[j - 1]])
            invariant
                j <= done < n,
                n == keys@.len(),
                ranks == keys@.map_values(|k: RankKey| k@),
                lists_all(order@, n as nat),
                order@[j as int] == done,
                forall|p: int| done < p < n ==> order@[p] == p,
                forall|x: int| 0 <= x <= done && x != j ==> order@[x] < done,
                forall|x: int, y: int|
                    0 <= x < y <= done && x != j && y != j ==> #[trigger] in_order(
                        ranks,
                        order@,
                        x,
                        y,
                    ),
                forall|y: int|
                    j < y <= done ==> precedes(
                        ranks[done as int],
                        ranks[#[trigger] order@[y] as int],
                    ),
            decreases j,
        {
            let ghost before = order@;
            let a = order[j - 1];
            let b = order[j];
            order.set(j - 1, b);
            order.set(j, a);
            proof {
                assert forall|p: usize| p < n implies #[trigger] order@.contains(p) by {
                    assert(before.contains(p));
                    let i = choose|i: int| 0 <= i < n && before[i] == p;
                    if i == j {
                        assert(order@[j - 1] == p);
                    } else if i == j - 1 {
                        assert(order@[j as int] == p);
                    } else {
                        assert(order@[i] == p);
                    }
                }
                assert forall|x: int, y: int|
                    0 <= x < y <= done && x != j - 1 && y != j - 1 implies #[trigger] in_order(
                    ranks,
                    order@,
                    x,
                    y,
                ) by {
                    let xb = if x == j {
                        j - 1
                    } else {
                        x
                    };
                    let yb = if y == j {
                        j - 1
                    } else {
                        y
                    };
                    assert(in_order(ranks, before, xb, yb));
                }
            }
            j -= 1;
        }
        proof {
            let moved = ranks[done as int];
            assert forall|x: int, y: int| 0 <= x < y < done + 1 implies #[trigger] in_order(
                ranks,
                order@,
                x,
                y,
            ) by {
                if y == j {
                    if x != j - 1 {
                        assert(in_order(ranks, order@, x, j - 1));
                        lemma_precedes_order(
                            ranks[order@[x] as int],
                            ranks[order@[j - 1] as int],
                            moved,
                        );
                    }
                } else if x == j {
                    lemma_precedes_order(moved, ranks[order@[y] as int], moved);
                }
            }
        }
        done += 1;
    }
    order
}

} // verus!
