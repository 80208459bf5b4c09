//! Which particle pairs enter the pairwise sums: every unordered pair of
//! charged particles for a full evaluation, and for the cost of a trial move
//! only the pairs that involve a moved particle, each of them once.
use vstd::prelude::*;

verus! {

broadcast use vstd::seq_lib::lemma_seq_contains_after_push;

/// `p` is one of the moved particles.
pub open spec fn is_moved(idxes: Seq<usize>, p: int) -> bool {
    exists|s: int| 0 <= s < idxes.len() && idxes[s] as int == p
}

/// The moved particles are distinct particles of a system of `n`.
pub open spec fn valid_moves(n: int, idxes: Seq<usize>) -> bool {
    &&& idxes.no_duplicates()
    &&& forall|s: int| 0 <= s < idxes.len() ==> idxes[s] < n
}

/// `i < j` are two charged particles.
pub open spec fn charged_pair(charged: Seq<bool>, i: int, j: int) -> bool {
    0 <= i < j < charged.len() && charged[i] && charged[j]
}

/// Lexicographic order on index pairs.
pub open spec fn lex_lt(p: (usize, usize), q: (usize, usize)) -> bool {
    p.0 < q.0 || (p.0 == q.0 && p.1 < q.1)
}

/// `r` lists every pair `i < j` of charged particles, each once, in
/// lexicographic order, and nothing else.
pub open spec fn is_pair_list(charged: Seq<bool>, r: Seq<(usize, usize)>) -> bool {
    &&& forall|k: int| 0 <= k < r.len() ==> charged_pair(charged, r[k].0 as int, r[k].1 as int)
    &&& forall|i: int, j: int| #[trigger] charged_pair(charged, i, j) ==> r.contains((i as usize, j as usize))
    &&& forall|x: int, y: int| 0 <= x < y < r.len() ==> lex_lt(r[x], r[y])
}

/// All pairs `i < j` of charged particles, in lexicographic order. Pairs with
/// an uncharged particle contribute nothing to any pairwise sum.
pub fn charged_pairs(charged: &Vec<bool>) -> (r: Vec<(usize, usize)>)
    ensures
        is_pair_list(charged@, r@),
{
    let n = charged.len();
    let mut r: Vec<(usize, usize)> = Vec::new();
    let mut i: usize = 0;
    while i < n
        invariant
            n == charged@.len(),
            i <= n,
            forall|k: int| 0 <= k < r@.len() ==> charged_pair(charged@, r@[k].0 as int, r@[k].1 as int) && r@[k].0 < i,
            forall|a: int, b: int| #[trigger] charged_pair(charged@, a, b) && a < i ==> r@.contains((a as usize, b as usize)),
            forall|x: int, y: int| 0 <= x < y < r@.len() ==> lex_lt(r@[x], r@[y]),
        decreases n - i,
    {
        if charged[i] {
            let mut j: usize = i + 1;
            while j < n
                invariant
                    n == charged@.len(),
                    i < j <= n,
                    charged@[i as int],
                    forall|k: int| 0 <= k < r@.len() ==> charged_pair(charged@, r@[k].0 as int, r@[k].1 as int)
                        && (r@[k].0 < i || (r@[k].0 == i && r@[k].1 < j)),
                    forall|a: int, b: int| #[trigger] charged_pair(charged@, a, b) && (a < i || (a == i && b < j))
                        ==> r@.contains((a as usize, b as usize)),
                    forall|x: int, y: int| 0 <= x < y < r@.len() ==> lex_lt(r@[x], r@[y]),
                decreases n - j,
            {
                if charged[j] {
                    r.push((i, j));
                }
                j += 1;
            }
        }
        i += 1;
    }
    r
}

/// A pair that enters the cost of a trial move. `i` is moved: it is
/// `idxes[slot_i]`, and its proposed position is the one at `slot_i`. `j` is
/// either not moved (`slot_j` is `None`), or moved and `idxes[slot_j]` with
/// `slot_j > slot_i`.
#[derive(Clone, Copy, Debug, PartialEq, Eq, Structural)]
pub struct MovedPair {
    pub i: usize,
    pub j: usize,
    pub slot_i: usize,
    pub slot_j: Option<usize>,
}

/// `m` is a well-formed moved pair of charged particles.
pub open spec fn moved_entry(charged: Seq<bool>, idxes: Seq<usize>, m: MovedPair) -> bool {
    &&& m.slot_i < idxes.len() && idxes[m.slot_i as int] == m.i
    &&& m.i < charged.len() && m.j < charged.len()
    &&& charged[m.i as int] && charged[m.j as int]
    &&& match m.slot_j {
        None => !is_moved(idxes, m.j as int),
        Some(t) => m.slot_i < t < idxes.len() && idxes[t as int] == m.j,
    }
}

/// `m` joins `a` and `b`, in either order.
pub open spec fn joins(m: MovedPair, a: int, b: int) -> bool {
    (m.i as int == a && m.j as int == b) || (m.i as int == b && m.j as int == a)
}

/// `a` and `b` are two charged particles, at least one of them moved.
pub open spec fn touched_pair(charged: Seq<bool>, idxes: Seq<usize>, a: int, b: int) -> bool {
    &&& 0 <= a < charged.len() && 0 <= b < charged.len() && a != b
    &&& charged[a] && charged[b]
    &&& is_moved(idxes, a) || is_moved(idxes, b)
}

/// `r` holds every unordered pair of charged particles that involves a moved
/// particle exactly once, and nothing else.
pub open spec fn is_moved_pair_list(charged: Seq<bool>, idxes: Seq<usize>, r: Seq<MovedPair>) -> bool {
    &&& forall|k: int| 0 <= k < r.len() ==> moved_entry(charged, idxes, #[trigger] r[k])
    &&& forall|a: int, b: int| #[trigger] touched_pair(charged, idxes, a, b) ==>
        exists|k: int| 0 <= k < r.len() && joins(r[k], a, b)
    &&& forall|x: int, y: int| 0 <= x < y < r.len() ==> !joins(r[y], r[x].i as int, r[x].j as int)
}

/// Where `p` stands among the moved particles, if it is one of them.
pub fn slot_of(idxes: &Vec<usize>, p: usize) -> (r: Option<usize>)
    ensures
        match r {
            Some(s) => s < idxes@.len() && idxes@[s as int] == p,
            None => !is_moved(idxes@, p as int),
        },
{
    let mut s: usize = 0;
    while s < idxes.len()
        invariant
            s <= idxes@.len(),
            forall|t: int| 0 <= t < s ==> idxes@[t] != p,
        decreases idxes@.len() - s,
    {
        if idxes[s] == p {
            return Some(s);
        }
        s += 1;
    }
    None
}

/// The pairs whose energy changes when the particles `idxes` move: each
/// moved charged particle with each charged particle that stays, then each
/// two moved charged particles.
pub fn moved_pairs(charged: &Vec<bool>, idxes: &Vec<usize>) -> (r: Vec<MovedPair>)
    requires
        valid_moves(charged@.len() as int, idxes@),
    ensures
        is_moved_pair_list(charged@, idxes@, r@),
{
    let n = charged.len();
    let m = idxes.len();
    let ghost cs = charged@;
    let ghost ix = idxes@;
    let mut r: Vec<MovedPair> = Vec::new();
    let mut s: usize = 0;
    while s < m
        invariant
            n == cs.len(), m == ix.len(), cs == charged@, ix == idxes@,
            valid_moves(n as int, ix),
            s <= m,
            forall|k: int| 0 <= k < r@.len() ==> moved_entry(cs, ix, #[trigger] r@[k]),
            forall|k: int| 0 <= k < r@.len() ==> (#[trigger] r@[k]).slot_j is None && r@[k].slot_i < s,
            forall|t: int, b: int| 0 <= t < s && 0 <= b < n && cs[ix[t] as int] && cs[b] && !is_moved(ix, b) ==>
                r@.contains(MovedPair { i: ix[t], j: b as usize, slot_i: t as usize, slot_j: None }),
            forall|x: int, y: int| 0 <= x < y < r@.len() ==> !joins(r@[y], r@[x].i as int, r@[x].j as int),
        decreases m - s,
    {
        let i = idxes[s];
        if charged[i] {
            let mut j: usize = 0;
            while j < n
                invariant
                    n == cs.len(), m == ix.len(), cs == charged@, ix == idxes@,
                    valid_moves(n as int, ix),
                    s < m, i == ix[s as int], cs[i as int],
                    j <= n,
                    forall|k: int| 0 <= k < r@.len() ==> moved_entry(cs, ix, #[trigger] r@[k]),
                    forall|k: int| 0 <= k < r@.len() ==> (#[trigger] r@[k]).slot_j is None
                        && (r@[k].slot_i < s || (r@[k].slot_i == s && r@[k].j < j)),
                    forall|t: int, b: int| ((0 <= t < s) || (t == s && b < j)) && 0 <= b < n
                        && cs[ix[t] as int] && cs[b] && !is_moved(ix, b) ==>
                        r@.contains(MovedPair { i: ix[t], j: b as usize, slot_i: t as usize, slot_j: None }),
                    forall|x: int, y: int| 0 <= x < y < r@.len() ==> !joins(r@[y], r@[x].i as int, r@[x].j as int),
                decreases n - j,
            {
                if charged[j] {
                    if slot_of(idxes, j).is_none() {
                        let e = MovedPair { i, j, slot_i: s, slot_j: None };
                        proof {
                            assert forall|x: int| 0 <= x < r@.len() implies !joins(e, r@[x].i as int, r@[x].j as int) by {
                                let o = r@[x];
                                assert(moved_entry(cs, ix, o));
                                if o.slot_i < s {
                                    assert(ix[o.slot_i as int] != ix[s as int]);
                                }
                            }
                        }
                        r.push(e);
                    }
                }
                j += 1;
            }
        }
        s += 1;
    }
    let mut s: usize = 0;
    while s < m
        invariant
            n == cs.len(), m == ix.len(), cs == charged@, ix == idxes@,
            valid_moves(n as int, ix),
            s <= m,
            forall|k: int| 0 <= k < r@.len() ==> moved_entry(cs, ix, #[trigger] r@[k]),
            forall|k: int| 0 <= k < r@.len() ==> match (#[trigger] r@[k]).slot_j {
                None => true,
                Some(t) => r@[k].slot_i < s,
            },
            forall|t: int, b: int| 0 <= t < m && 0 <= b < n && cs[ix[t] as int] && cs[b] && !is_moved(ix, b) ==>
                r@.contains(MovedPair { i: ix[t], j: b as usize, slot_i: t as usize, slot_j: None }),
            forall|t: int, u: int| 0 <= t < s && t < u < m && cs[ix[t] as int] && cs[ix[u] as int] ==>
                r@.contains(MovedPair { i: ix[t], j: ix[u], slot_i: t as usize, slot_j: Some(u as usize) }),
            forall|x: int, y: int| 0 <= x < y < r@.len() ==> !joins(r@[y], r@[x].i as int, r@[x].j as int),
        decreases m - s,
    {
        let i = idxes[s];
        if charged[i] {
            let mut u: usize = s + 1;
            while u < m
                invariant
                    n == cs.len(), m == ix.len(), cs == charged@, ix == idxes@,
                    valid_moves(n as int, ix),
                    s < u <= m, i == ix[s as int], cs[i as int],
                    forall|k: int| 0 <= k < r@.len() ==> moved_entry(cs, ix, #[trigger] r@[k]),
                    forall|k: int| 0 <= k < r@.len() ==> match (#[trigger] r@[k]).slot_j {
                        None => true,
                        Some(t) => r@[k].slot_i < s || (r@[k].slot_i == s && t < u),
                    },
                    forall|t: int, b: int| 0 <= t < m && 0 <= b < n && cs[ix[t] as int] && cs[b] && !is_moved(ix, b) ==>
                        r@.contains(MovedPair { i: ix[t], j: b as usize, slot_i: t as usize, slot_j: None }),
                    forall|t: int, v: int| ((0 <= t < s && t < v < m) || (t == s && s < v < u))
                        && cs[ix[t] as int] && cs[ix[v] as int] ==>
                        r@.contains(MovedPair { i: ix[t], j: ix[v], slot_i: t as usize, slot_j: Some(v as usize) }),
                    forall|x: int, y: int| 0 <= x < y < r@.len() ==> !joins(r@[y], r@[x].i as int, r@[x].j as int),
                decreases m - u,
            {
                let j = idxes[u];
                if charged[j] {
                    let e = MovedPair { i, j, slot_i: s, slot_j: Some(u) };
                    proof {
                        assert(is_moved(ix, i as int));
                        assert(is_moved(ix, j as int));
                        assert forall|x: int| 0 <= x < r@.len() implies !joins(e, r@[x].i as int, r@[x].j as int) by {
                            let o = r@[x];
                            assert(moved_entry(cs, ix, o));
                            if let Some(t) = o.slot_j {
                                if o.slot_i != s {
                                    assert(ix[o.slot_i as int] != ix[s as int]);
                                }
                                if t != u {
                                    assert(ix[t as int] != ix[u as int]);
                                }
                                if o.slot_i != u {
                                    assert(ix[o.slot_i as int] != ix[u as int]);
                                }
                            }
                        }
                    }
                    r.push(e);
                }
                u += 1;
            }
        }
        s += 1;
    }
    proof {
        assert forall|a: int, b: int| #[trigger] touched_pair(cs, ix, a, b) implies
            exists|k: int| 0 <= k < r@.len() && joins(r@[k], a, b) by {
            if is_moved(ix, a) && is_moved(ix, b) {
                let sa = choose|t: int| 0 <= t < ix.len() && ix[t] as int == a;
                let sb = choose|t: int| 0 <= t < ix.len() && ix[t] as int == b;
                if sa < sb {
                    let e = MovedPair { i: ix[sa], j: ix[sb], slot_i: sa as usize, slot_j: Some(sb as usize) };
                    assert(r@.contains(e));
                    let k = choose|k: int| 0 <= k < r@.len() && r@[k] == e;
                    assert(joins(r@[k], a, b));
                } else {
                    let e = MovedPair { i: ix[sb], j: ix[sa], slot_i: sb as usize, slot_j: Some(sa as usize) };
                    assert(r@.contains(e));
                    let k = choose|k: int| 0 <= k < r@.len() && r@[k] == e;
                    assert(joins(r@[k], a, b));
                }
            } else if is_moved(ix, a) {
                let sa = choose|t: int| 0 <= t < ix.len() && ix[t] as int == a;
                let e = MovedPair { i: ix[sa], j: b as usize, slot_i: sa as usize, slot_j: None };
                assert(r@.contains(e));
                let k = choose|k: int| 0 <= k < r@.len() && r@[k] == e;
                assert(joins(r@[k], a, b));
            } else {
                let sb = choose|t: int| 0 <= t < ix.len() && ix[t] as int == b;
                let e = MovedPair { i: ix[sb], j: a as usize, slot_i: sb as usize, slot_j: None };
                assert(r@.contains(e));
                let k = choose|k: int| 0 <= k < r@.len() && r@[k] == e;
                assert(joins(r@[k], a, b));
            }
        }
    }
    r
}

} // verus!
