//! Pairwise sums over pair lists, and why the cost of a trial move needs
//! only the pairs that involve a moved particle.
use vstd::prelude::*;
use crate::pairs::{MovedPair, is_moved, valid_moves, is_pair_list, is_moved_pair_list, charged_pair, touched_pair, joins, lex_lt};

verus! {

/// Sum of `f` over a sequence of index pairs.
pub open spec fn pair_sum(ps: Seq<(int, int)>, f: spec_fn(int, int) -> int) -> int
    decreases ps.len(),
{
    if ps.len() == 0 {
        0
    } else {
        pair_sum(ps.drop_last(), f) + f(ps.last().0, ps.last().1)
    }
}

/// The two ends of each listed pair.
pub open spec fn ends(ps: Seq<(usize, usize)>) -> Seq<(int, int)> {
    ps.map_values(|p: (usize, usize)| (p.0 as int, p.1 as int))
}

/// The two ends of each moved pair, the moved particle first.
pub open spec fn moved_ends(ms: Seq<MovedPair>) -> Seq<(int, int)> {
    ms.map_values(|m: MovedPair| (m.i as int, m.j as int))
}

/// A pair written with its smaller index first.
pub open spec fn canon(p: (int, int)) -> (int, int) {
    if p.0 <= p.1 { p } else { (p.1, p.0) }
}

/// Each pair written with its smaller index first.
pub open spec fn canon_all(ps: Seq<(int, int)>) -> Seq<(int, int)> {
    ps.map_values(|p: (int, int)| canon(p))
}

/// The pointwise difference `f - g` of two pair functions.
pub open spec fn pair_diff(f: spec_fn(int, int) -> int, g: spec_fn(int, int) -> int) -> spec_fn(int, int) -> int {
    |a: int, b: int| f(a, b) - g(a, b)
}

/// `f` does not depend on the order of the two ends.
pub open spec fn symmetric(f: spec_fn(int, int) -> int) -> bool {
    forall|a: int, b: int| #[trigger] f(a, b) == f(b, a)
}

proof fn lemma_sum_diff(ps: Seq<(int, int)>, f: spec_fn(int, int) -> int, g: spec_fn(int, int) -> int)
    ensures
        pair_sum(ps, f) - pair_sum(ps, g) == pair_sum(ps, pair_diff(f, g)),
    decreases ps.len(),
{
    if ps.len() > 0 {
        lemma_sum_diff(ps.drop_last(), f, g);
    }
}

proof fn lemma_sum_canon(ps: Seq<(int, int)>, f: spec_fn(int, int) -> int)
    requires
        symmetric(f),
    ensures
        pair_sum(ps, f) == pair_sum(canon_all(ps), f),
    decreases ps.len(),
{
    if ps.len() > 0 {
        assert(canon_all(ps).drop_last() =~= canon_all(ps.drop_last()));
        lemma_sum_canon(ps.drop_last(), f);
        let p = ps.last();
        assert(f(p.0, p.1) == f(p.1, p.0));
    }
}

proof fn lemma_sum_remove(ps: Seq<(int, int)>, k: int, f: spec_fn(int, int) -> int)
    requires
        0 <= k < ps.len(),
    ensures
        pair_sum(ps, f) == pair_sum(ps.remove(k), f) + f(ps[k].0, ps[k].1),
    decreases ps.len(),
{
    if k == ps.len() - 1 {
        assert(ps.remove(k) =~= ps.drop_last());
    } else {
        assert(ps.remove(k).drop_last() =~= ps.drop_last().remove(k));
        assert(ps.remove(k).last() == ps.last());
        lemma_sum_remove(ps.drop_last(), k, f);
    }
}

/// Sums agree over two duplicate-free lists when the second is part of the
/// first and `f` vanishes on the rest.
proof fn lemma_sum_part(s1: Seq<(int, int)>, s2: Seq<(int, int)>, f: spec_fn(int, int) -> int)
    requires
        s1.no_duplicates(),
        s2.no_duplicates(),
        forall|p: (int, int)| s2.contains(p) ==> s1.contains(p),
        forall|p: (int, int)| s1.contains(p) && !s2.contains(p) ==> f(p.0, p.1) == 0,
    ensures
        pair_sum(s1, f) == pair_sum(s2, f),
    decreases s1.len(),
{
    if s1.len() == 0 {
        if s2.len() > 0 {
            assert(s2.contains(s2[0]));
        }
    } else {
        let x = s1.last();
        let rest = s1.drop_last();
        assert(s1.contains(x));
        assert forall|p: (int, int)| rest.contains(p) implies s1.contains(p) && p != x by {
            let i = choose|i: int| 0 <= i < rest.len() && rest[i] == p;
            assert(s1[i] == p);
        }
        if s2.contains(x) {
            let k = choose|k: int| 0 <= k < s2.len() && s2[k] == x;
            let s2r = s2.remove(k);
            lemma_sum_remove(s2, k, f);
            assert forall|p: (int, int)| s2r.contains(p) implies s2.contains(p) && p != x by {
                let i = choose|i: int| 0 <= i < s2r.len() && s2r[i] == p;
                if i < k {
                    assert(s2[i] == p);
                } else {
                    assert(s2[i + 1] == p);
                }
            }
            assert forall|p: (int, int)| s2.contains(p) && p != x implies s2r.contains(p) by {
                let i = choose|i: int| 0 <= i < s2.len() && s2[i] == p;
                if i < k {
                    assert(s2r[i] == p);
                } else {
                    assert(i != k);
                    assert(s2r[i - 1] == p);
                }
            }
            assert forall|p: (int, int)| s2r.contains(p) implies rest.contains(p) by {
                let i = choose|i: int| 0 <= i < s1.len() && s1[i] == p;
                assert(i != s1.len() - 1);
                assert(rest[i] == p);
            }
            lemma_sum_part(rest, s2r, f);
        } else {
            assert forall|p: (int, int)| s2.contains(p) implies rest.contains(p) by {
                let i = choose|i: int| 0 <= i < s1.len() && s1[i] == p;
                assert(i != s1.len() - 1);
                assert(rest[i] == p);
            }
            lemma_sum_part(rest, s2, f);
        }
    }
}

/// The cost of moving the particles `idxes`, summed over the moved pairs
/// alone, equals the change of the sum over all pairs of charged particles,
/// for any symmetric pair energy whose value changes only on pairs that
/// involve a moved particle (in exact arithmetic).
pub proof fn lemma_move_cost_is_energy_change(
    charged: Seq<bool>,
    idxes: Seq<usize>,
    all: Seq<(usize, usize)>,
    moved: Seq<MovedPair>,
    e_old: spec_fn(int, int) -> int,
    e_new: spec_fn(int, int) -> int,
)
    requires
        valid_moves(charged.len() as int, idxes),
        is_pair_list(charged, all),
        is_moved_pair_list(charged, idxes, moved),
        symmetric(e_old),
        symmetric(e_new),
        forall|a: int, b: int| !is_moved(idxes, a) && !is_moved(idxes, b) ==> e_new(a, b) == e_old(a, b),
    ensures
        pair_sum(moved_ends(moved), e_new) - pair_sum(moved_ends(moved), e_old)
            == pair_sum(ends(all), e_new) - pair_sum(ends(all), e_old),
{
    let d = pair_diff(e_new, e_old);
    let a = ends(all);
    let mm = canon_all(moved_ends(moved));
    lemma_sum_diff(moved_ends(moved), e_new, e_old);
    lemma_sum_diff(a, e_new, e_old);
    assert(symmetric(d)) by {
        assert forall|x: int, y: int| #[trigger] d(x, y) == d(y, x) by {
            assert(e_new(x, y) == e_new(y, x));
            assert(e_old(x, y) == e_old(y, x));
        }
    }
    lemma_sum_canon(moved_ends(moved), d);
    assert(a.no_duplicates()) by {
        assert forall|x: int, y: int| 0 <= x < a.len() && 0 <= y < a.len() && x != y implies a[x] != a[y] by {
            if x < y {
                assert(lex_lt(all[x], all[y]));
            } else {
                assert(lex_lt(all[y], all[x]));
            }
        }
    }
    assert(mm.no_duplicates()) by {
        assert forall|x: int, y: int| 0 <= x < mm.len() && 0 <= y < mm.len() && x != y implies mm[x] != mm[y] by {
            if x < y {
                assert(!joins(moved[y], moved[x].i as int, moved[x].j as int));
            } else {
                assert(!joins(moved[x], moved[y].i as int, moved[y].j as int));
            }
        }
    }
    assert forall|p: (int, int)| mm.contains(p) implies a.contains(p) by {
        let k = choose|k: int| 0 <= k < mm.len() && mm[k] == p;
        let m = moved[k];
        assert(crate::pairs::moved_entry(charged, idxes, m));
        assert(is_moved(idxes, m.i as int));
        assert(m.i != m.j) by {
            if let Some(t) = m.slot_j {
                assert(idxes[m.slot_i as int] != idxes[t as int]);
            }
        }
        assert(charged_pair(charged, p.0, p.1));
        assert(all.contains((p.0 as usize, p.1 as usize)));
        let i = choose|i: int| 0 <= i < all.len() && all[i] == (p.0 as usize, p.1 as usize);
        assert(a[i] == p);
    }
    assert forall|p: (int, int)| a.contains(p) && !mm.contains(p) implies d(p.0, p.1) == 0 by {
        let i = choose|i: int| 0 <= i < a.len() && a[i] == p;
        assert(charged_pair(charged, p.0, p.1));
        if is_moved(idxes, p.0) || is_moved(idxes, p.1) {
            assert(touched_pair(charged, idxes, p.0, p.1));
            let k = choose|k: int| 0 <= k < moved.len() && joins(moved[k], p.0, p.1);
            assert(mm[k] == p);
        }
    }
    lemma_sum_part(a, mm, d);
}

} // verus!
