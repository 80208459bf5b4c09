use ewald::{
    charged_pairs, check_shape, fold_factor, moved_pairs, slot_of, CellKey, CellShape,
    EwaldError, MovedPair, PairRestriction, PrecomputeCache, TrialMoves, TrialState,
    select_excluded,
};

fn cubic(length: f64) -> CellKey {
    CellKey {
        shape: CellShape::Orthorhombic,
        a: length.to_bits(),
        b: length.to_bits(),
        c: length.to_bits(),
        alpha: 90.0f64.to_bits(),
        beta: 90.0f64.to_bits(),
        gamma: 90.0f64.to_bits(),
    }
}

fn triclinic() -> CellKey {
    CellKey { shape: CellShape::Triclinic, ..cubic(10.0) }
}

fn infinite() -> CellKey {
    CellKey {
        shape: CellShape::Infinite,
        a: 0,
        b: 0,
        c: 0,
        alpha: 90.0f64.to_bits(),
        beta: 90.0f64.to_bits(),
        gamma: 90.0f64.to_bits(),
    }
}

#[test]
fn shapes_accepted_and_refused() {
    assert_eq!(check_shape(CellShape::Orthorhombic), Ok(()));
    assert_eq!(check_shape(CellShape::Infinite), Err(EwaldError::InfiniteCell));
    assert_eq!(check_shape(CellShape::Triclinic), Err(EwaldError::TriclinicCell));
}

#[test]
fn plan_rebuilds_once_per_cell() {
    let mut cache = PrecomputeCache::new();
    assert_eq!(cache.plan(cubic(20.0)), Ok(true));
    assert_eq!(cache.previous, Some(cubic(20.0)));
    assert_eq!(cache.plan(cubic(20.0)), Ok(false));
    assert_eq!(cache.previous, Some(cubic(20.0)));
    assert_eq!(cache.plan(cubic(10.0)), Ok(true));
    assert_eq!(cache.previous, Some(cubic(10.0)));
}

#[test]
fn plan_refuses_triclinic_cell() {
    let mut cache = PrecomputeCache::new();
    assert_eq!(cache.plan(cubic(20.0)), Ok(true));
    assert_eq!(cache.plan(triclinic()), Err(EwaldError::TriclinicCell));
    assert_eq!(cache.previous, Some(cubic(20.0)));
    assert_eq!(cache.plan(triclinic()), Err(EwaldError::TriclinicCell));
}

#[test]
fn plan_refuses_infinite_cell() {
    let mut cache = PrecomputeCache::new();
    assert_eq!(cache.plan(infinite()), Err(EwaldError::InfiniteCell));
    assert_eq!(cache.previous, None);
}

#[test]
fn fold_factors_of_octant() {
    assert_eq!(fold_factor(0, 0, 0), 0);
    assert_eq!(fold_factor(1, 0, 0), 2);
    assert_eq!(fold_factor(0, 3, 0), 2);
    assert_eq!(fold_factor(0, 0, 9), 2);
    assert_eq!(fold_factor(1, 1, 0), 4);
    assert_eq!(fold_factor(0, 2, 5), 4);
    assert_eq!(fold_factor(2, 3, 4), 8);
}

#[test]
fn no_restriction_excludes_nothing() {
    let r = PairRestriction::NoRestriction;
    assert!(!r.information(Some(1)).excluded);
    assert!(!r.information(Some(3)).excluded);
    assert!(!r.information(None).excluded);
}

#[test]
fn intermolecular_excludes_bonded_pairs() {
    let r = PairRestriction::InterMolecular;
    assert!(r.information(Some(1)).excluded);
    assert!(r.information(Some(2)).excluded);
    assert!(!r.information(None).excluded);
}

#[test]
fn all_pairs_of_charged_particles() {
    assert_eq!(charged_pairs(&vec![true, true, true]), vec![(0, 1), (0, 2), (1, 2)]);
    assert_eq!(charged_pairs(&vec![true, false, true, true]), vec![(0, 2), (0, 3), (2, 3)]);
    assert_eq!(charged_pairs(&vec![false, true]), vec![]);
    assert_eq!(charged_pairs(&vec![]), vec![]);
}

fn pair(i: usize, j: usize, slot_i: usize, slot_j: Option<usize>) -> MovedPair {
    MovedPair { i, j, slot_i, slot_j }
}

#[test]
fn moved_pairs_of_two_waters() {
    let pairs = moved_pairs(&vec![true; 6], &vec![0, 1]);
    let expected = vec![
        pair(0, 2, 0, None),
        pair(0, 3, 0, None),
        pair(0, 4, 0, None),
        pair(0, 5, 0, None),
        pair(1, 2, 1, None),
        pair(1, 3, 1, None),
        pair(1, 4, 1, None),
        pair(1, 5, 1, None),
        pair(0, 1, 0, Some(1)),
    ];
    assert_eq!(pairs, expected);
}

#[test]
fn moved_pairs_between_moved_particles_in_any_order() {
    let pairs = moved_pairs(&vec![true; 4], &vec![3, 1, 2]);
    let expected = vec![
        pair(3, 0, 0, None),
        pair(1, 0, 1, None),
        pair(2, 0, 2, None),
        pair(3, 1, 0, Some(1)),
        pair(3, 2, 0, Some(2)),
        pair(1, 2, 1, Some(2)),
    ];
    assert_eq!(pairs, expected);
}

#[test]
fn moved_pairs_skip_uncharged_partner() {
    assert_eq!(moved_pairs(&vec![true, false, true], &vec![0]), vec![pair(0, 2, 0, None)]);
    assert_eq!(moved_pairs(&vec![true, true, false], &vec![0, 2]), vec![pair(0, 1, 0, None)]);
    assert_eq!(moved_pairs(&vec![false, true, true], &vec![0]), vec![]);
    assert_eq!(moved_pairs(&vec![true, true], &vec![]), vec![]);
}

#[test]
fn slots_of_moved_particles() {
    let idxes = vec![4, 0, 7];
    assert_eq!(slot_of(&idxes, 4), Some(0));
    assert_eq!(slot_of(&idxes, 7), Some(2));
    assert_eq!(slot_of(&idxes, 1), None);
}

#[test]
fn trial_move_cycle() {
    let mut t = TrialMoves::new();
    assert_eq!(t.state, TrialState::Clean);
    assert!(!t.update());
    assert_eq!(t.state, TrialState::Clean);
    t.cost_computed();
    assert_eq!(t.state, TrialState::Pending);
    t.evaluated();
    assert_eq!(t.state, TrialState::Pending);
    assert!(t.update());
    assert_eq!(t.state, TrialState::Committed);
    assert!(!t.update());
    t.evaluated();
    assert_eq!(t.state, TrialState::Clean);
}

#[test]
fn intermolecular_selects_pairs_within_a_molecule() {
    // one water (0, 1, 2) bonded O-H, O-H; a lone ion 3
    let pairs = charged_pairs(&vec![true; 4]);
    let distances = vec![Some(1), Some(1), None, Some(2), None, None];
    let excluded = select_excluded(PairRestriction::InterMolecular, &pairs, &distances);
    assert_eq!(excluded, vec![(0, 1), (0, 2), (1, 2)]);
}

#[test]
fn no_restriction_selects_no_pair() {
    let pairs = charged_pairs(&vec![true; 3]);
    let distances = vec![Some(1), Some(1), Some(2)];
    assert_eq!(select_excluded(PairRestriction::NoRestriction, &pairs, &distances), vec![]);
}

#[test]
fn excluded_moved_pairs_of_two_waters() {
    let pairs = moved_pairs(&vec![true; 6], &vec![0, 1]);
    let molecule = [0, 0, 0, 1, 1, 1];
    let distances: Vec<Option<u64>> = pairs
        .iter()
        .map(|p| if molecule[p.i] == molecule[p.j] { Some(1) } else { None })
        .collect();
    let excluded = select_excluded(PairRestriction::InterMolecular, &pairs, &distances);
    assert_eq!(excluded, vec![pair(0, 2, 0, None), pair(1, 2, 1, None), pair(0, 1, 0, Some(1))]);
}
