//! Pair exclusion policies.
use vstd::prelude::*;

verus! {

/// Which pairs are left out of the direct pairwise electrostatics. Neither
/// policy scales a pair: a pair is either left out entirely or counted fully.
#[derive(Clone, Copy, Debug, PartialEq, Eq, Structural)]
pub enum PairRestriction {
    /// Every pair interacts.
    NoRestriction,
    /// Pairs within one molecule (joined by a path of bonds) do not interact.
    InterMolecular,
}

/// What a restriction says of one pair.
#[derive(Clone, Copy, Debug, PartialEq, Eq, Structural)]
pub struct RestrictionInfo {
    pub excluded: bool,
}

impl PairRestriction {
    /// Whether a pair at bond-graph distance `distance` is excluded; `None`
    /// stands for particles that no path of bonds joins.
    pub fn information(&self, distance: Option<u64>) -> (r: RestrictionInfo)
        ensures
            r.excluded == excludes(*self, distance),
    {
        match self {
            PairRestriction::NoRestriction => RestrictionInfo { excluded: false },
            PairRestriction::InterMolecular => RestrictionInfo { excluded: distance.is_some() },
        }
    }
}

/// `true` when `restriction` leaves out a pair at bond-graph distance
/// `distance`.
pub open spec fn excludes(restriction: PairRestriction, distance: Option<u64>) -> bool {
    restriction == PairRestriction::InterMolecular && distance is Some
}

/// The items whose pair `restriction` leaves out, in their order, where
/// `distances[k]` is the bond-graph distance of the pair `items[k]`.
pub open spec fn excluded_items<T>(restriction: PairRestriction, items: Seq<T>, distances: Seq<Option<u64>>) -> Seq<T>
    decreases items.len(),
{
    if items.len() == 0 || distances.len() != items.len() {
        Seq::empty()
    } else {
        let rest = excluded_items(restriction, items.drop_last(), distances.drop_last());
        if excludes(restriction, distances.last()) {
            rest.push(items.last())
        } else {
            rest
        }
    }
}

/// The pairs among `items` that `restriction` leaves out of the direct
/// electrostatics, which the molecular correction must subtract again;
/// `distances[k]` is the bond-graph distance of the pair `items[k]`.
pub fn select_excluded<T: Copy>(restriction: PairRestriction, items: &Vec<T>, distances: &Vec<Option<u64>>) -> (r: Vec<T>)
    requires
        items@.len() == distances@.len(),
    ensures
        r@ == excluded_items(restriction, items@, distances@),
{
    let mut r: Vec<T> = Vec::new();
    let mut k: usize = 0;
    while k < items.len()
        invariant
            items@.len() == distances@.len(),
            k <= items@.len(),
            r@ == excluded_items(restriction, items@.take(k as int), distances@.take(k as int)),
        decreases items@.len() - k,
    {
        proof {
            assert(items@.take(k + 1).drop_last() =~= items@.take(k as int));
            assert(distances@.take(k + 1).drop_last() =~= distances@.take(k as int));
        }
        if restriction.information(distances[k]).excluded {
            r.push(items[k]);
        }
        k += 1;
    }
    proof {
        assert(items@.take(k as int) =~= items@);
        assert(distances@.take(k as int) =~= distances@);
    }
    r
}

/// Without a restriction no pair is left out, so the molecular correction
/// sums over no pair at all.
pub proof fn lemma_no_restriction_excludes_nothing<T>(items: Seq<T>, distances: Seq<Option<u64>>)
    ensures
        excluded_items(PairRestriction::NoRestriction, items, distances).len() == 0,
    decreases items.len(),
{
    if items.len() > 0 && distances.len() == items.len() {
        lemma_no_restriction_excludes_nothing(items.drop_last(), distances.drop_last());
    }
}

} // verus!
