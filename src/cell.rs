//! Unit cells as seen by the engine, and the cache that decides when the
//! reciprocal-space prefactors must be rebuilt.
use vstd::prelude::*;

verus! {

/// Shape of a periodic unit cell.
#[derive(Clone, Copy, Debug, PartialEq, Eq, Structural)]
pub enum CellShape {
    Infinite,
    Orthorhombic,
    Triclinic,
}

/// Fatal configuration errors of the engine.
#[derive(Clone, Copy, Debug, PartialEq, Eq, Structural)]
pub enum EwaldError {
    /// The cell has no periodicity.
    InfiniteCell,
    /// The cell is not orthorhombic.
    TriclinicCell,
}

/// Identity of a unit cell: its shape, and the bit patterns of its three
/// lengths and three angles. Cells with equal keys are the same cell to the
/// precompute cache.
#[derive(Clone, Copy, Debug, PartialEq, Eq, Structural)]
pub struct CellKey {
    pub shape: CellShape,
    pub a: u64,
    pub b: u64,
    pub c: u64,
    pub alpha: u64,
    pub beta: u64,
    pub gamma: u64,
}

/// The error, if any, that a cell of this shape raises.
pub open spec fn shape_error(shape: CellShape) -> Option<EwaldError> {
    match shape {
        CellShape::Infinite => Some(EwaldError::InfiniteCell),
        CellShape::Triclinic => Some(EwaldError::TriclinicCell),
        CellShape::Orthorhombic => None,
    }
}

/// Accepts orthorhombic cells only.
pub fn check_shape(shape: CellShape) -> (r: Result<(), EwaldError>)
    ensures
        r is Ok <==> shape == CellShape::Orthorhombic,
        r is Err ==> Some(r->Err_0) == shape_error(shape),
{
    match shape {
        CellShape::Infinite => Err(EwaldError::InfiniteCell),
        CellShape::Triclinic => Err(EwaldError::TriclinicCell),
        CellShape::Orthorhombic => Ok(()),
    }
}

/// Remembers the cell for which the reciprocal-space prefactors were last
/// built.
#[derive(Clone, Copy, Debug)]
pub struct PrecomputeCache {
    pub previous: Option<CellKey>,
}

impl PrecomputeCache {
    /// Only an accepted cell is ever remembered.
    pub open spec fn wf(&self) -> bool {
        self.previous matches Some(k) ==> k.shape == CellShape::Orthorhombic
    }

    /// A cache that has seen no cell yet.
    pub fn new() -> (r: PrecomputeCache)
        ensures
            r.previous is None,
            r.wf(),
    {
        PrecomputeCache { previous: None }
    }

    /// Decides what a precomputation against `cell` must do: nothing when
    /// `cell` is the remembered one, a rebuild (remembering `cell`) when it is
    /// another orthorhombic cell, and the shape's error otherwise.
    pub fn plan(&mut self, cell: CellKey) -> (r: Result<bool, EwaldError>)
        requires
            old(self).wf(),
        ensures
            final(self).wf(),
            (r, final(self).previous) == plan_outcome(old(self).previous, cell),
    {
        if let Some(prev) = self.previous {
            if prev == cell {
                return Ok(false);
            }
        }
        match check_shape(cell.shape) {
            Err(e) => Err(e),
            Ok(()) => {
                self.previous = Some(cell);
                Ok(true)
            },
        }
    }
}

/// What planning against `cell` returns, with the cell remembered afterwards,
/// given the cell remembered before: `Ok(false)` for the remembered cell,
/// `Ok(true)` for another accepted cell, which is then remembered, and the
/// shape's error for a cell that is not accepted, remembering as before.
pub open spec fn plan_outcome(previous: Option<CellKey>, cell: CellKey) -> (Result<bool, EwaldError>, Option<CellKey>) {
    if previous == Some(cell) {
        (Ok(false), previous)
    } else {
        match shape_error(cell.shape) {
            Some(e) => (Err(e), previous),
            None => (Ok(true), Some(cell)),
        }
    }
}

/// Planning twice in a row against the same cell does the work at most once:
/// after an accepted first plan the second asks for nothing, after a refused
/// one it refuses alike, and either way it remembers what the first left.
pub proof fn lemma_plan_idempotent(previous: Option<CellKey>, cell: CellKey)
    ensures
        plan_outcome(previous, cell).0 is Ok ==>
            plan_outcome(plan_outcome(previous, cell).1, cell).0 == Ok::<bool, EwaldError>(false),
        plan_outcome(previous, cell).0 is Err ==>
            plan_outcome(plan_outcome(previous, cell).1, cell).0 == plan_outcome(previous, cell).0,
        plan_outcome(plan_outcome(previous, cell).1, cell).1 == plan_outcome(previous, cell).1,
{
}

} // verus!
