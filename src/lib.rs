//! Verified control logic of an Ewald summation engine for periodic point
//! charges: which cells are accepted, when the reciprocal-space prefactors
//! must be rebuilt, how the stored octant of k-points is weighted, which
//! particle pairs enter each sum, and the trial-move commit protocol.
pub mod cell;
pub mod cost;
pub mod kgrid;
pub mod pairs;
pub mod restriction;
pub mod trial;

pub use cell::{CellKey, CellShape, EwaldError, PrecomputeCache, check_shape};
pub use kgrid::fold_factor;
pub use restriction::{PairRestriction, RestrictionInfo, select_excluded};
pub use trial::{TrialMoves, TrialState};
pub use pairs::{MovedPair, charged_pairs, moved_pairs, slot_of};
