//! The flow grid: a fixed lattice of cells, each holding an anchor (its
//! centre in world coordinates, set once) and a field vector (rewritten from
//! the sampler every tick).
//!
//! Cells are stored flat, column-major: cell `(col, row)` sits at index
//! `col * rows + row`.

use vstd::prelude::*;

verus! {

use vstd::pervasive::VecAdditionalExecFns;

use crate::field::{sample, spec_sample};
use crate::fixed::{BOUND_LIMIT, ONE, PHASE_LIMIT};
use crate::real_vector::{RealVector, V2, spec_limit};

/// One grid cell: the field vector currently sampled for it, and its fixed
/// anchor point (the cell's centre in world coordinates).
#[derive(Clone, Copy, Debug, PartialEq, Eq, Structural)]
pub struct GridCell {
    pub field_vector: RealVector,
    pub anchor: RealVector,
}

/// The mathematical value of a grid cell.
pub struct CellV {
    pub field_vector: V2,
    pub anchor: V2,
}

impl View for GridCell {
    type V = CellV;

    open spec fn view(&self) -> CellV {
        CellV { field_vector: self.field_vector@, anchor: self.anchor@ }
    }
}

/// The anchor of cell `(col, row)`: the cell's centre, half a cell in from
/// its low corner on both axes.
pub open spec fn spec_anchor(col: int, row: int, cell_size: int) -> V2 {
    V2 {
        x: col * cell_size * ONE + cell_size * ONE / 2,
        y: row * cell_size * ONE + cell_size * ONE / 2,
    }
}

/// The field vector of cell `(col, row)` at a given phase: the sampler's
/// direction at the phase-shifted cell coordinate, laid off at length
/// `cell_length`.
pub open spec fn spec_field_vector(
    col: int,
    row: int,
    phase: int,
    angle_scale: int,
    cell_length: int,
) -> V2 {
    spec_limit(
        spec_sample(col * angle_scale + phase, row * angle_scale + phase),
        cell_length,
        cell_length,
    )
}

/// The column index of the cell containing a world position.
pub open spec fn spec_cell_col(p: V2, cell_size: int) -> int {
    p.x / (cell_size * ONE)
}

/// The row index of the cell containing a world position.
pub open spec fn spec_cell_row(p: V2, cell_size: int) -> int {
    p.y / (cell_size * ONE)
}

/// A `columns` by `rows` lattice of cells covering a `width` by `height`
/// box of whole world units, `cell_size` units to a cell side.
pub struct FlowGrid {
    pub cells: Vec<GridCell>,
    pub columns: usize,
    pub rows: usize,
    pub cell_size: i64,
    pub width: i64,
    pub height: i64,
}

impl FlowGrid {
    /// The grid's structural invariant: the lattice tiles the box exactly,
    /// the flat cell store has one cell per lattice point, and every anchor
    /// sits at its cell's centre.
    pub open spec fn wf(self) -> bool {
        &&& 1 <= self.cell_size <= self.width <= 1_500
        &&& self.cell_size <= self.height <= 1_500
        &&& self.width % self.cell_size == 0
        &&& self.height % self.cell_size == 0
        &&& self.columns == self.width / self.cell_size
        &&& self.rows == self.height / self.cell_size
        &&& 1 <= self.columns <= 1_500
        &&& 1 <= self.rows <= 1_500
        &&& self.cells@.len() == self.columns * self.rows
        &&& forall|j: int|
            0 <= j < self.cells@.len() ==> (#[trigger] self.cells@[j])@.anchor == spec_anchor(
                j / self.rows as int,
                j % self.rows as int,
                self.cell_size as int,
            )
        &&& forall|j: int|
            0 <= j < self.cells@.len() ==> (#[trigger] self.cells@[j])@.field_vector.in_range()
    }

    /// Builds the lattice for a `width` by `height` box: anchors at the cell
    /// centres, every field vector pointing right at length `cell_length`
    /// until the first regeneration.
    pub fn new(width: i64, height: i64, cell_size: i64, cell_length: i64) -> (g: FlowGrid)
        requires
            1 <= cell_size <= width <= 1_500,
            cell_size <= height <= 1_500,
            width % cell_size == 0,
            height % cell_size == 0,
            0 <= cell_length <= BOUND_LIMIT,
        ensures
            g.wf(),
            g.width == width,
            g.height == height,
            g.cell_size == cell_size,
            forall|j: int|
                0 <= j < g.cells@.len() ==> (#[trigger] g.cells@[j])@.field_vector == (V2 {
                    x: cell_length as int,
                    y: 0,
                }),
    {
        let columns = ((width as u64) / (cell_size as u64)) as usize;
        let rows = ((height as u64) / (cell_size as u64)) as usize;
        assert(1 <= columns <= 1_500 && 1 <= rows <= 1_500 && columns * rows
            <= 2_250_000) by (nonlinear_arith)
            requires
                columns == width as int / cell_size as int,
                rows == height as int / cell_size as int,
                1 <= cell_size as int,
                cell_size <= width,
                cell_size <= height,
                width as int <= 1_500,
                height as int <= 1_500,
        ;
        let total = columns * rows;
        let mut cells: Vec<GridCell> = Vec::new();
        let mut idx: usize = 0;
        while idx < total
            invariant
                cells@.len() == idx,
                idx <= total,
                total == columns * rows,
                columns <= 1_500,
                1 <= rows <= 1_500,
                columns == width as int / cell_size as int,
                rows == height as int / cell_size as int,
                1 <= cell_size <= width <= 1_500,
                cell_size <= height <= 1_500,
                0 <= cell_length <= BOUND_LIMIT,
                forall|j: int|
                    0 <= j < idx ==> (#[trigger] cells@[j])@.anchor == spec_anchor(
                        j / rows as int,
                        j % rows as int,
                        cell_size as int,
                    ),
                forall|j: int|
                    0 <= j < idx ==> (#[trigger] cells@[j])@.field_vector == (V2 {
                        x: cell_length as int,
                        y: 0,
                    }),
            decreases total - idx,
        {
            let col = idx / rows;
            let row = idx % rows;
            assert(col < columns) by (nonlinear_arith)
                requires
                    col == idx as int / rows as int,
                    idx < columns * rows,
                    1 <= rows,
            ;
            let anchor = Self::anchor_at(col, row, cell_size);
            cells.push(GridCell { field_vector: RealVector { x: cell_length, y: 0 }, anchor });
            idx = idx + 1;
        }
        FlowGrid { cells, columns, rows, cell_size, width, height }
    }

    /// The anchor of cell `(col, row)`, computed in fixed point.
    fn anchor_at(col: usize, row: usize, cell_size: i64) -> (a: RealVector)
        requires
            col < 1_500,
            row < 1_500,
            1 <= cell_size <= 1_500,
        ensures
            a@ == spec_anchor(col as int, row as int, cell_size as int),
    {
        let step = cell_size * ONE;
        assert(col as int * step <= 1_499 * 1_500_000_000 && row as int * step <= 1_499
            * 1_500_000_000 && col as int * (cell_size as int * ONE) == col as int * cell_size
            as int * ONE && row as int * (cell_size as int * ONE) == row as int * cell_size
            as int * ONE && col as int * step >= 0 && row as int * step >= 0) by (nonlinear_arith)
            requires
                step == cell_size as int * ONE,
                col < 1_500,
                row < 1_500,
                1 <= cell_size <= 1_500,
                ONE == 1_000_000,
        ;
        RealVector { x: (col as i64) * step + step / 2, y: (row as i64) * step + step / 2 }
    }

    /// Resamples every cell's field vector for the given phase; anchors and
    /// the lattice itself stay as they are.
    pub fn regenerate(&mut self, phase: i64, angle_scale: i64, cell_length: i64)
        requires
            old(self).wf(),
            0 <= phase <= PHASE_LIMIT,
            0 <= angle_scale <= 10_000_000,
            0 <= cell_length <= BOUND_LIMIT,
        ensures
            final(self).wf(),
            final(self).columns == old(self).columns,
            final(self).rows == old(self).rows,
            final(self).cell_size == old(self).cell_size,
            final(self).width == old(self).width,
            final(self).height == old(self).height,
            final(self).cells@.len() == old(self).cells@.len(),
            forall|j: int|
                0 <= j < final(self).cells@.len() ==> (#[trigger] final(self).cells@[j])@.anchor
                    == old(self).cells@[j]@.anchor,
            forall|j: int|
                0 <= j < final(self).cells@.len() ==> (#[trigger] final(self).cells@[j])@.field_vector
                    == spec_field_vector(
                    j / final(self).rows as int,
                    j % final(self).rows as int,
                    phase as int,
                    angle_scale as int,
                    cell_length as int,
                ),
    {
        let rows = self.rows;
        assert(1 <= rows) by (nonlinear_arith)
            requires
                rows == self.height as int / self.cell_size as int,
                1 <= self.cell_size,
                self.cell_size <= self.height,
        ;
        let total = self.cells.len();
        let mut idx: usize = 0;
        while idx < total
            invariant
                self.wf(),
                self.columns == old(self).columns,
                self.rows == old(self).rows,
                self.cell_size == old(self).cell_size,
                self.width == old(self).width,
                self.height == old(self).height,
                rows == self.rows,
                1 <= rows,
                total == self.cells@.len(),
                idx <= total,
                0 <= phase <= PHASE_LIMIT,
                0 <= angle_scale <= 10_000_000,
                0 <= cell_length <= BOUND_LIMIT,
                forall|j: int|
                    0 <= j < total ==> (#[trigger] self.cells@[j])@.anchor
                        == old(self).cells@[j]@.anchor,
                forall|j: int|
                    idx <= j < total ==> (#[trigger] self.cells@[j]) == old(self).cells@[j],
                forall|j: int|
                    0 <= j < idx ==> (#[trigger] self.cells@[j])@.field_vector
                        == spec_field_vector(
                        j / rows as int,
                        j % rows as int,
                        phase as int,
                        angle_scale as int,
                        cell_length as int,
                    ),
            decreases total - idx,
        {
            let col = idx / rows;
            let row = idx % rows;
            assert(col < self.columns) by (nonlinear_arith)
                requires
                    col == idx as int / rows as int,
                    idx < self.columns * rows,
                    1 <= rows,
            ;
            assert(col as int * angle_scale <= 1_500 * 10_000_000 && row as int * angle_scale
                <= 1_500 * 10_000_000 && 0 <= col as int * angle_scale && 0 <= row as int
                * angle_scale) by (nonlinear_arith)
                requires
                    col <= 1_500,
                    row <= 1_500,
                    0 <= angle_scale <= 10_000_000,
            ;
            let x_arg = (col as i64) * angle_scale + phase;
            let y_arg = (row as i64) * angle_scale + phase;
            let dir = sample(x_arg, y_arg);
            let fv = dir.limit(cell_length, cell_length);
            let anchor = self.cells[idx].anchor;
            self.cells.set(idx, GridCell { field_vector: fv, anchor });
            idx = idx + 1;
        }
    }

    /// The cell under a world position: indices are the coordinates divided
    /// by the cell side, floored. The caller keeps positions wrapped into
    /// the box, so the lookup always lands inside the lattice.
    pub fn cell_at(&self, position: &RealVector) -> (cell: &GridCell)
        requires
            self.wf(),
            0 <= position.x < self.width * ONE,
            0 <= position.y < self.height * ONE,
        ensures
            *cell == self.cells@[spec_cell_col(position@, self.cell_size as int) * self.rows as int
                + spec_cell_row(position@, self.cell_size as int)],
            cell@.field_vector == self.cells@[spec_cell_col(position@, self.cell_size as int)
                * self.rows as int + spec_cell_row(position@, self.cell_size as int)]@.field_vector,
            0 <= spec_cell_col(position@, self.cell_size as int) < self.columns,
            0 <= spec_cell_row(position@, self.cell_size as int) < self.rows,
            0 <= spec_cell_col(position@, self.cell_size as int) * self.rows as int
                + spec_cell_row(position@, self.cell_size as int) < self.cells@.len(),
    {
        let (col, row) = self.cell_coords(position);
        assert((col as int) * (self.rows as int) + (row as int) < (self.columns as int) * (
        self.rows as int) && 0 <= (col as int) * (self.rows as int) && (col as int) * (
        self.rows as int) + (row as int) < 2_250_000) by (nonlinear_arith)
            requires
                col < self.columns,
                row < self.rows,
                self.columns <= 1_500,
                self.rows <= 1_500,
        ;
        assert((col as int) * (self.rows as int) + (row as int) < self.cells@.len());
        &self.cells[col * self.rows + row]
    }

    /// The `(column, row)` lattice coordinates of the cell under a world
    /// position.
    pub fn cell_coords(&self, position: &RealVector) -> (cr: (usize, usize))
        requires
            self.wf(),
            0 <= position.x < self.width * ONE,
            0 <= position.y < self.height * ONE,
        ensures
            cr.0 as int == spec_cell_col(position@, self.cell_size as int),
            cr.1 as int == spec_cell_row(position@, self.cell_size as int),
            cr.0 < self.columns,
            cr.1 < self.rows,
    {
        let step = (self.cell_size as u64) * (ONE as u64);
        assert(step == self.cell_size as int * ONE && step <= 1_500_000_000) by (nonlinear_arith)
            requires
                step == self.cell_size as int * ONE,
                1 <= self.cell_size <= 1_500,
                ONE == 1_000_000,
        ;
        let col = ((position.x as u64) / step) as usize;
        let row = ((position.y as u64) / step) as usize;
        proof {
            lemma_coord_in_lattice(
                position.x as int,
                self.width as int,
                self.cell_size as int,
                self.columns as int,
            );
            lemma_coord_in_lattice(
                position.y as int,
                self.height as int,
                self.cell_size as int,
                self.rows as int,
            );
        }
        (col, row)
    }
}

/// A coordinate wrapped into `[0, extent * ONE)` lands in a lattice of
/// `extent / cell_size` cells of side `cell_size * ONE`.
proof fn lemma_coord_in_lattice(x: int, extent: int, cell_size: int, lanes: int)
    requires
        0 <= x < extent * ONE,
        1 <= cell_size <= extent,
        extent % cell_size == 0,
        lanes == extent / cell_size,
    ensures
        0 <= x / (cell_size * ONE) < lanes,
{
    assert(0 <= x / (cell_size * ONE) < lanes) by (nonlinear_arith)
        requires
            0 <= x < extent * ONE,
            1 <= cell_size <= extent,
            extent % cell_size == 0,
            lanes == extent / cell_size,
            ONE == 1_000_000,
    ;
}

} // verus!
