use vstd::prelude::*;
use crate::error::FrameError;

verus! {

/// The orientation of the brightness gradient across a cell.
#[derive(Clone, Copy, Debug, PartialEq, Eq, Structural)]
pub enum EdgeDirection {
    /// No edge: the gradient is too weak, or the cell lies on the border.
    NoEdge,
    /// The gradient points along the x axis: within 22.5 degrees of it.
    Horizontal,
    /// The gradient points along the y axis.
    Vertical,
    /// The gradient points along the diagonal on which x and y grow
    /// together.
    ForwardDiagonal,
    /// The gradient points along the diagonal on which x grows as y falls.
    BackDiagonal,
}

/// What the detector knows of one cell: the square of the gradient's
/// magnitude, and its direction.
///
/// The magnitude is the square root of `magnitude_sq`. The square is kept
/// because it is exact: to compare it with the square of a threshold is to
/// compare the magnitude with the threshold.
#[derive(Clone, Copy, Debug, PartialEq, Eq, Structural)]
pub struct EdgeCell {
    pub magnitude_sq: u32,
    pub direction: EdgeDirection,
}

/// A cell without an edge and without a gradient.
pub open spec fn flat_cell() -> EdgeCell {
    EdgeCell { magnitude_sq: 0, direction: EdgeDirection::NoEdge }
}

/// A complete grid of edge cells, stored row by row. A map is built whole
/// and never changed afterwards.
#[derive(Debug)]
pub struct EdgeMap {
    w: usize,
    h: usize,
    cells: Vec<EdgeCell>,
}

impl View for EdgeMap {
    type V = Seq<EdgeCell>;

    /// The map's cells, in storage order.
    closed spec fn view(&self) -> Seq<EdgeCell> {
        self.cells@
    }
}

impl EdgeMap {
    /// Number of cells in a row.
    pub closed spec fn spec_width(&self) -> usize {
        self.w
    }

    /// Number of rows.
    pub closed spec fn spec_height(&self) -> usize {
        self.h
    }

    /// The dimensions are positive and the map holds exactly
    /// `width * height` cells.
    pub open spec fn wf(&self) -> bool {
        &&& self.width() > 0
        &&& self.height() > 0
        &&& self@.len() == self.width() * self.height()
    }

    /// The cell at `(x, y)`; a flat cell outside the grid.
    pub open spec fn cell_at(&self, x: int, y: int) -> EdgeCell {
        if 0 <= x < self.width() && 0 <= y < self.height() && y * self.width() + x < self@.len() {
            self@[y * self.width() + x]
        } else {
            flat_cell()
        }
    }

    #[verifier::when_used_as_spec(spec_width)]
    pub fn width(&self) -> (r: usize)
        ensures
            r == self.width(),
    {
        self.w
    }

    #[verifier::when_used_as_spec(spec_height)]
    pub fn height(&self) -> (r: usize)
        ensures
            r == self.height(),
    {
        self.h
    }

    /// A map of the given dimensions over the given cells, row by row.
    /// Zero dimensions are refused as invalid, a number of cells other than
    /// `w * h` as inconsistent.
    pub fn from_cells(w: usize, h: usize, cells: Vec<EdgeCell>) -> (r: Result<Self, FrameError>)
        ensures
            r is Ok <==> (w > 0 && h > 0 && cells@.len() == w * h),
            (w == 0 || h == 0) ==> r == Err::<Self, FrameError>(FrameError::InvalidDimensions),
            (w > 0 && h > 0 && cells@.len() != w * h) ==> r == Err::<Self, FrameError>(
                FrameError::ConversionError,
            ),
            r matches Ok(m) ==> {
                &&& m.width() == w
                &&& m.height() == h
                &&& m.wf()
                &&& m@ == cells@
            },
    {
        if w == 0 || h == 0 {
            return Err(FrameError::InvalidDimensions);
        }
        assert(w * h <= u128::MAX) by (nonlinear_arith)
            requires
                w <= u64::MAX,
                h <= u64::MAX,
        ;
        let expected: u128 = (w as u128) * (h as u128);
        if cells.len() as u128 != expected {
            return Err(FrameError::ConversionError);
        }
        Ok(Self { w, h, cells })
    }

    /// The cell at `(x, y)`; a flat cell outside the grid.
    pub fn cell(&self, x: usize, y: usize) -> (c: EdgeCell)
        ensures
            c == self.cell_at(x as int, y as int),
    {
        if x >= self.w || y >= self.h {
            return EdgeCell { magnitude_sq: 0, direction: EdgeDirection::NoEdge };
        }
        let len: usize = self.cells.len();
        assert(y * self.w + x <= u128::MAX) by (nonlinear_arith)
            requires
                y <= u64::MAX,
                self.w <= u64::MAX,
                x <= u64::MAX,
        ;
        let index: u128 = (y as u128) * (self.w as u128) + (x as u128);
        if index < len as u128 {
            self.cells[index as usize]
        } else {
            EdgeCell { magnitude_sq: 0, direction: EdgeDirection::NoEdge }
        }
    }

    /// The whole map, row by row, for reading.
    pub fn cells(&self) -> (r: &[EdgeCell])
        ensures
            r@ == self@,
    {
        self.cells.as_slice()
    }
}

} // verus!
