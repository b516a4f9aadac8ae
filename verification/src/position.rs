use vstd::prelude::*;

verus! {

/// Where a cell of the field sits on the integer lattice of cells.
#[derive(Debug, Clone, Copy, PartialEq, Eq, Structural)]
pub struct LogicalPosition {
    pub x: i64,
    pub y: i64,
}

/// Whether `a - b` fits in an `i64` on both axes.
pub open spec fn displacement_fits(a: LogicalPosition, b: LogicalPosition) -> bool {
    &&& i64::MIN <= a.x - b.x <= i64::MAX
    &&& i64::MIN <= a.y - b.y <= i64::MAX
}

/// Whether moving `p` by `(dx, dy)` stays on the `i64` lattice.
pub open spec fn shift_fits(p: LogicalPosition, dx: int, dy: int) -> bool {
    &&& i64::MIN <= p.x + dx <= i64::MAX
    &&& i64::MIN <= p.y + dy <= i64::MAX
}

/// One tile of the field: the cell it lies in, and its column `x` and row
/// `y` inside that cell.
#[derive(Debug, Clone, Copy, PartialEq, Eq, Structural)]
pub struct TilePosition {
    pub cell: LogicalPosition,
    pub x: u8,
    pub y: u8,
}

impl LogicalPosition {
    /// The number of cells from `to` to `self` on each axis: `self - to`.
    pub fn displacement_from(self, to: LogicalPosition) -> (d: (i64, i64))
        requires
            displacement_fits(self, to),
        ensures
            d.0 == self.x - to.x,
            d.1 == self.y - to.y,
    {
        (self.x - to.x, self.y - to.y)
    }

    /// This position moved by `dx` cells along x and `dy` cells along y.
    pub fn shifted(self, dx: i64, dy: i64) -> (p: LogicalPosition)
        requires
            shift_fits(self, dx as int, dy as int),
        ensures
            p.x == self.x + dx,
            p.y == self.y + dy,
    {
        LogicalPosition { x: self.x + dx, y: self.y + dy }
    }
}

/// Moving `to` by the displacement from `to` to `from` lands on `from`.
pub proof fn lemma_shift_by_displacement(from: LogicalPosition, to: LogicalPosition)
    requires
        displacement_fits(from, to),
    ensures
        shift_fits(to, from.x - to.x, from.y - to.y),
        to.x + (from.x - to.x) == from.x,
        to.y + (from.y - to.y) == from.y,
{
}

/// The displacement from `p` to `p.shifted(dx, dy)` is `(dx, dy)`.
pub proof fn lemma_displacement_of_shift(p: LogicalPosition, dx: i64, dy: i64)
    requires
        shift_fits(p, dx as int, dy as int),
    ensures
        ({
            let q = LogicalPosition { x: (p.x + dx) as i64, y: (p.y + dy) as i64 };
            &&& displacement_fits(q, p)
            &&& q.x - p.x == dx
            &&& q.y - p.y == dy
        }),
{
}

/// A position is no distance from itself.
pub proof fn lemma_displacement_to_self(p: LogicalPosition)
    ensures
        displacement_fits(p, p),
        p.x - p.x == 0,
        p.y - p.y == 0,
{
}

/// Swapping the two ends of a displacement negates it.
pub proof fn lemma_displacement_antisymmetric(a: LogicalPosition, b: LogicalPosition)
    requires
        displacement_fits(a, b),
        displacement_fits(b, a),
    ensures
        a.x - b.x == -(b.x - a.x),
        a.y - b.y == -(b.y - a.y),
{
}

} // verus!
