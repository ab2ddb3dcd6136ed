use vstd::prelude::*;
use vstd::math::abs;
use crate::ascii_frame::lemma_cell_index_inside;
use crate::edge_map::{flat_cell, EdgeCell, EdgeDirection, EdgeMap};
use crate::image_frame::{lemma_pixel_present_iff_inside, ImageFrame};
use crate::tone::{luminance, luminance_of, MILLI};

verus! {

/// The square of `|gx| + |gy|`. Against twice the square of one component
/// it tells on which side of a sector boundary the gradient lies: the
/// angle between the gradient and the x axis is under 22.5 degrees exactly
/// when `|gy| < (sqrt 2 - 1) |gx|`, that is when
/// `(|gx| + |gy|)^2 < 2 gx^2`.
pub open spec fn span_sq(gx: int, gy: int) -> int {
    ((abs(gx) + abs(gy)) * (abs(gx) + abs(gy))) as int
}

/// The gradient lies within 22.5 degrees of the x axis.
pub open spec fn in_horizontal_sector(gx: int, gy: int) -> bool {
    span_sq(gx, gy) < 2 * (gx * gx)
}

/// The gradient lies within 22.5 degrees of the y axis.
pub open spec fn in_vertical_sector(gx: int, gy: int) -> bool {
    span_sq(gx, gy) < 2 * (gy * gy)
}

/// The gradient lies within 22.5 degrees of the diagonal `gx == gy`.
pub open spec fn in_forward_sector(gx: int, gy: int) -> bool {
    &&& gx * gy > 0
    &&& span_sq(gx, gy) >= 2 * (gx * gx)
    &&& span_sq(gx, gy) >= 2 * (gy * gy)
}

/// The gradient lies within 22.5 degrees of the diagonal `gx == -gy`.
pub open spec fn in_back_sector(gx: int, gy: int) -> bool {
    &&& gx * gy < 0
    &&& span_sq(gx, gy) >= 2 * (gx * gx)
    &&& span_sq(gx, gy) >= 2 * (gy * gy)
}

/// The direction of a gradient by its sector; none for the zero gradient.
pub open spec fn classify(gx: int, gy: int) -> EdgeDirection {
    if in_horizontal_sector(gx, gy) {
        EdgeDirection::Horizontal
    } else if in_vertical_sector(gx, gy) {
        EdgeDirection::Vertical
    } else if in_forward_sector(gx, gy) {
        EdgeDirection::ForwardDiagonal
    } else if in_back_sector(gx, gy) {
        EdgeDirection::BackDiagonal
    } else {
        EdgeDirection::NoEdge
    }
}

/// The square of the gradient's magnitude.
pub open spec fn magnitude_sq(gx: int, gy: int) -> int {
    gx * gx + gy * gy
}

/// The gradient's magnitude is less than the threshold, given in
/// thousandths.
pub open spec fn below_threshold(gx: int, gy: int, threshold: int) -> bool {
    MILLI * MILLI * magnitude_sq(gx, gy) < threshold * threshold
}

/// The direction recorded for a gradient: none below the threshold, else
/// the gradient's sector.
pub open spec fn direction_of(gx: int, gy: int, threshold: int) -> EdgeDirection {
    if below_threshold(gx, gy, threshold) {
        EdgeDirection::NoEdge
    } else {
        classify(gx, gy)
    }
}

/// The luminance of the unadjusted pixel at `(x, y)`; zero where the frame
/// has no such pixel.
pub open spec fn luminance_at(frame: &ImageFrame, x: int, y: int) -> int {
    match frame.pixel_at(x, y) {
        Some(rgb) => luminance(rgb.0 as int, rgb.1 as int, rgb.2 as int),
        None => 0,
    }
}

/// The frame holds the pixel at `(x, y)` and its eight neighbours.
pub open spec fn has_neighbourhood(frame: &ImageFrame, x: int, y: int) -> bool {
    &&& frame.pixel_at(x - 1, y - 1) is Some
    &&& frame.pixel_at(x, y - 1) is Some
    &&& frame.pixel_at(x + 1, y - 1) is Some
    &&& frame.pixel_at(x - 1, y) is Some
    &&& frame.pixel_at(x, y) is Some
    &&& frame.pixel_at(x + 1, y) is Some
    &&& frame.pixel_at(x - 1, y + 1) is Some
    &&& frame.pixel_at(x, y + 1) is Some
    &&& frame.pixel_at(x + 1, y + 1) is Some
}

/// The horizontal gradient at `(x, y)`: the right column of the
/// neighbourhood less the left one, the middle row counted twice.
pub open spec fn gradient_x(frame: &ImageFrame, x: int, y: int) -> int {
    (luminance_at(frame, x + 1, y - 1) + 2 * luminance_at(frame, x + 1, y) + luminance_at(
        frame,
        x + 1,
        y + 1,
    )) - (luminance_at(frame, x - 1, y - 1) + 2 * luminance_at(frame, x - 1, y) + luminance_at(
        frame,
        x - 1,
        y + 1,
    ))
}

/// The vertical gradient at `(x, y)`: the row below less the row above,
/// the middle column counted twice.
pub open spec fn gradient_y(frame: &ImageFrame, x: int, y: int) -> int {
    (luminance_at(frame, x - 1, y + 1) + 2 * luminance_at(frame, x, y + 1) + luminance_at(
        frame,
        x + 1,
        y + 1,
    )) - (luminance_at(frame, x - 1, y - 1) + 2 * luminance_at(frame, x, y - 1) + luminance_at(
        frame,
        x + 1,
        y - 1,
    ))
}

/// What the detector records for the cell at `(x, y)`: flat where the cell
/// has no full neighbourhood, else the gradient's squared magnitude and its
/// direction at the given threshold.
pub open spec fn edge_cell(frame: &ImageFrame, x: int, y: int, threshold: int) -> EdgeCell {
    if has_neighbourhood(frame, x, y) {
        let gx = gradient_x(frame, x, y);
        let gy = gradient_y(frame, x, y);
        EdgeCell {
            magnitude_sq: magnitude_sq(gx, gy) as u32,
            direction: direction_of(gx, gy, threshold),
        }
    } else {
        flat_cell()
    }
}

/// The edge detector: a threshold, in thousandths of a luminance step,
/// under which a gradient counts as no edge.
#[derive(Clone, Copy, Debug)]
pub struct EdgeDetector {
    threshold: u32,
}

/// The luminance of the unadjusted pixel at `(x, y)`, if the frame has it.
fn pixel_luminance(frame: &ImageFrame, x: usize, y: usize) -> (l: Option<u8>)
    ensures
        l is Some <==> frame.pixel_at(x as int, y as int) is Some,
        l matches Some(v) ==> v == luminance_at(frame, x as int, y as int) && v <= 254,
{
    match frame.get_pixel(x, y) {
        Some(rgb) => Some(luminance_of(rgb.0, rgb.1, rgb.2)),
        None => None,
    }
}

impl EdgeDetector {
    /// The threshold, in thousandths.
    pub closed spec fn spec_threshold(&self) -> u32 {
        self.threshold
    }

    /// A detector with the given threshold, in thousandths.
    pub fn new(threshold: u32) -> (d: Self)
        ensures
            d.threshold() == threshold,
    {
        Self { threshold }
    }

    #[verifier::when_used_as_spec(spec_threshold)]
    pub fn threshold(&self) -> (t: u32)
        ensures
            t == self.threshold(),
    {
        self.threshold
    }

    /// What the detector records for the cell at `(x, y)` of the frame.
    pub fn detect_cell(&self, frame: &ImageFrame, x: usize, y: usize) -> (c: EdgeCell)
        ensures
            c == edge_cell(frame, x as int, y as int, self.threshold() as int),
    {
        let flat = EdgeCell { magnitude_sq: 0, direction: EdgeDirection::NoEdge };
        if x == 0 || y == 0 || x >= frame.width() || y >= frame.height() {
            return flat;
        }
        if x == usize::MAX || y == usize::MAX {
            return flat;
        }
        let nw: i32 = match pixel_luminance(frame, x - 1, y - 1) {
            Some(v) => v as i32,
            None => {
                return flat;
            },
        };
        let n: i32 = match pixel_luminance(frame, x, y - 1) {
            Some(v) => v as i32,
            None => {
                return flat;
            },
        };
        let ne: i32 = match pixel_luminance(frame, x + 1, y - 1) {
            Some(v) => v as i32,
            None => {
                return flat;
            },
        };
        let west: i32 = match pixel_luminance(frame, x - 1, y) {
            Some(v) => v as i32,
            None => {
                return flat;
            },
        };
        if frame.get_pixel(x, y).is_none() {
            return flat;
        }
        let east: i32 = match pixel_luminance(frame, x + 1, y) {
            Some(v) => v as i32,
            None => {
                return flat;
            },
        };
        let sw: i32 = match pixel_luminance(frame, x - 1, y + 1) {
            Some(v) => v as i32,
            None => {
                return flat;
            },
        };
        let s: i32 = match pixel_luminance(frame, x, y + 1) {
            Some(v) => v as i32,
            None => {
                return flat;
            },
        };
        let se: i32 = match pixel_luminance(frame, x + 1, y + 1) {
            Some(v) => v as i32,
            None => {
                return flat;
            },
        };
        let gx: i32 = (ne + 2 * east + se) - (nw + 2 * west + sw);
        let gy: i32 = (sw + 2 * s + se) - (nw + 2 * n + ne);
        assert(gx == gradient_x(frame, x as int, y as int));
        assert(gy == gradient_y(frame, x as int, y as int));
        assert(0 <= gx * gx <= 1016 * 1016 && 0 <= gy * gy <= 1016 * 1016) by (nonlinear_arith)
            requires
                -1016 <= gx <= 1016,
                -1016 <= gy <= 1016,
        ;
        let m: u32 = (gx * gx + gy * gy) as u32;
        let t: u64 = self.threshold as u64;
        assert(t * t <= u64::MAX) by (nonlinear_arith)
            requires
                0 <= t <= 0xffff_ffff,
        ;
        let direction = if 1_000_000u64 * (m as u64) < t * t {
            EdgeDirection::NoEdge
        } else {
            classify_gradient(gx, gy)
        };
        EdgeCell { magnitude_sq: m, direction }
    }

    /// The edge map of a frame: a cell for every pixel, each holding what
    /// the detector records for it.
    pub fn detect(&self, frame: &ImageFrame) -> (map: EdgeMap)
        requires
            frame.wf(),
        ensures
            map.wf(),
            map.width() == frame.width(),
            map.height() == frame.height(),
            forall|x: int, y: int|
                0 <= x < frame.width() && 0 <= y < frame.height() ==> #[trigger] map.cell_at(x, y)
                    == edge_cell(frame, x, y, self.threshold() as int),
    {
        let w: usize = frame.width();
        let h: usize = frame.height();
        let ghost t = self.threshold() as int;
        proof {
            frame.lemma_len_fits();
        }
        assert(w * h <= usize::MAX) by (nonlinear_arith)
            requires
                w * h * frame.bytes_per_pixel() <= usize::MAX,
                w > 0,
                h > 0,
                frame.bytes_per_pixel() > 0,
        ;
        let mut cells: Vec<EdgeCell> = Vec::with_capacity(w * h);
        let mut y: usize = 0;
        while y < h
            invariant
                y <= h,
                w == frame.width(),
                h == frame.height(),
                w > 0,
                t == self.threshold() as int,
                cells@.len() == y * w,
                forall|xx: int, yy: int|
                    0 <= xx < w && 0 <= yy < y ==> cells@[yy * w + xx] == #[trigger] edge_cell(
                        frame,
                        xx,
                        yy,
                        t,
                    ),
            decreases h - y,
        {
            let mut x: usize = 0;
            while x < w
                invariant
                    x <= w,
                    y < h,
                    w == frame.width(),
                    h == frame.height(),
                    w > 0,
                    t == self.threshold() as int,
                    cells@.len() == y * w + x,
                    forall|xx: int, yy: int|
                        0 <= xx < w && 0 <= yy < y ==> cells@[yy * w + xx] == #[trigger] edge_cell(
                            frame,
                            xx,
                            yy,
                            t,
                        ),
                    forall|xx: int|
                        0 <= xx < x ==> cells@[y * w + xx] == #[trigger] edge_cell(
                            frame,
                            xx,
                            y as int,
                            t,
                        ),
                decreases w - x,
            {
                let c = self.detect_cell(frame, x, y);
                let ghost before = cells@;
                cells.push(c);
                proof {
                    assert forall|xx: int, yy: int| 0 <= xx < w && 0 <= yy < y implies cells@[yy
                        * w + xx] == #[trigger] edge_cell(frame, xx, yy, t) by {
                        lemma_cell_index_inside(w as int, y as int, xx, yy);
                        assert(before[yy * w + xx] == edge_cell(frame, xx, yy, t));
                    }
                }
                x += 1;
            }
            proof {
                assert(y * w + w == (y + 1) * w) by (nonlinear_arith);
            }
            y += 1;
        }
        assert(h * w == w * h) by (nonlinear_arith);
        let r = EdgeMap::from_cells(w, h, cells);
        let map = r.unwrap();
        proof {
            assert forall|x: int, y: int| 0 <= x < w && 0 <= y < h implies #[trigger] map.cell_at(
                x,
                y,
            ) == edge_cell(frame, x, y, t) by {
                lemma_cell_index_inside(w as int, h as int, x, y);
            }
        }
        map
    }
}

/// The sector of a gradient.
pub fn classify_gradient(gx: i32, gy: i32) -> (d: EdgeDirection)
    ensures
        d == classify(gx as int, gy as int),
{
    let ax: i128 = if gx < 0 {
        -(gx as i128)
    } else {
        gx as i128
    };
    let ay: i128 = if gy < 0 {
        -(gy as i128)
    } else {
        gy as i128
    };
    let span: i128 = ax + ay;
    assert(span * span <= 0x1_0000_0000 * 0x1_0000_0000 && ax * ax <= 0x8000_0000 * 0x8000_0000
        && ay * ay <= 0x8000_0000 * 0x8000_0000 && ax * ax == gx * gx && ay * ay == gy * gy)
        by (nonlinear_arith)
        requires
            0 <= ax <= 0x8000_0000,
            0 <= ay <= 0x8000_0000,
            span == ax + ay,
            ax == gx || ax == -gx,
            ay == gy || ay == -gy,
    ;
    let span2: i128 = span * span;
    let x2: i128 = 2 * (ax * ax);
    let y2: i128 = 2 * (ay * ay);
    proof {
        lemma_product_sign(gx as int, gy as int);
    }
    if span2 < x2 {
        EdgeDirection::Horizontal
    } else if span2 < y2 {
        EdgeDirection::Vertical
    } else if (gx > 0 && gy > 0) || (gx < 0 && gy < 0) {
        EdgeDirection::ForwardDiagonal
    } else if gx != 0 && gy != 0 {
        EdgeDirection::BackDiagonal
    } else {
        EdgeDirection::NoEdge
    }
}

/// A product is positive where the factors have the same sign, negative
/// where they have opposite signs, and zero where one of them is.
proof fn lemma_product_sign(a: int, b: int)
    ensures
        a * b > 0 <==> ((a > 0 && b > 0) || (a < 0 && b < 0)),
        a * b < 0 <==> ((a > 0 && b < 0) || (a < 0 && b > 0)),
        a * b == 0 <==> (a == 0 || b == 0),
{
    assert(a * b > 0 <==> ((a > 0 && b > 0) || (a < 0 && b < 0))) by (nonlinear_arith);
    assert(a * b < 0 <==> ((a > 0 && b < 0) || (a < 0 && b > 0))) by (nonlinear_arith);
    assert(a * b == 0 <==> (a == 0 || b == 0)) by (nonlinear_arith);
}

/// The four sectors partition the gradients other than zero: every such
/// gradient lies in exactly one of them, and `classify` names it. The zero
/// gradient lies in none.
pub proof fn lemma_sectors_partition(gx: int, gy: int)
    ensures
        !(in_horizontal_sector(gx, gy) && in_vertical_sector(gx, gy)),
        !(in_horizontal_sector(gx, gy) && in_forward_sector(gx, gy)),
        !(in_horizontal_sector(gx, gy) && in_back_sector(gx, gy)),
        !(in_vertical_sector(gx, gy) && in_forward_sector(gx, gy)),
        !(in_vertical_sector(gx, gy) && in_back_sector(gx, gy)),
        !(in_forward_sector(gx, gy) && in_back_sector(gx, gy)),
        (gx != 0 || gy != 0) <==> (in_horizontal_sector(gx, gy) || in_vertical_sector(gx, gy)
            || in_forward_sector(gx, gy) || in_back_sector(gx, gy)),
        classify(gx, gy) == EdgeDirection::Horizontal <==> in_horizontal_sector(gx, gy),
        classify(gx, gy) == EdgeDirection::Vertical <==> in_vertical_sector(gx, gy),
        classify(gx, gy) == EdgeDirection::ForwardDiagonal <==> in_forward_sector(gx, gy),
        classify(gx, gy) == EdgeDirection::BackDiagonal <==> in_back_sector(gx, gy),
        classify(gx, gy) == EdgeDirection::NoEdge <==> (gx == 0 && gy == 0),
{
    let a = abs(gx) as int;
    let b = abs(gy) as int;
    lemma_product_sign(gx, gy);
    assert(a * a == gx * gx && b * b == gy * gy) by (nonlinear_arith)
        requires
            a == gx || a == -gx,
            b == gy || b == -gy,
    ;
    assert((a + b) * (a + b) == a * a + b * b + 2 * (a * b)) by (nonlinear_arith);
    assert(a * b >= 0 && (a * b == 0 <==> (a == 0 || b == 0)) && (a == 0 <==> a * a == 0) && (b
        == 0 <==> b * b == 0) && a * a >= 0 && b * b >= 0) by (nonlinear_arith)
        requires
            a >= 0,
            b >= 0,
    ;
}

/// Twice a square is a square only at zero: the square root of two is no
/// fraction.
proof fn lemma_double_square(s: nat, a: nat)
    requires
        s * s == 2 * (a * a),
    ensures
        s == 0,
        a == 0,
    decreases s,
{
    if s > 0 {
        let k = s / 2;
        if s % 2 == 1 {
            assert(s * s == 2 * (2 * (k * k) + 2 * k) + 1) by (nonlinear_arith)
                requires
                    s == 2 * k + 1,
            ;
            assert(false);
        }
        assert(s * s == 4 * (k * k)) by (nonlinear_arith)
            requires
                s == 2 * k,
        ;
        let m = a / 2;
        if a % 2 == 1 {
            assert(a * a == 2 * (2 * (m * m) + 2 * m) + 1) by (nonlinear_arith)
                requires
                    a == 2 * m + 1,
            ;
            assert(false);
        }
        assert(a * a == 4 * (m * m)) by (nonlinear_arith)
            requires
                a == 2 * m,
        ;
        lemma_double_square(k, m);
    } else {
        assert(a == 0) by (nonlinear_arith)
            requires
                s == 0,
                s * s == 2 * (a * a),
        ;
    }
}

/// No gradient other than zero lies on the boundary between two sectors:
/// the boundaries are at 22.5 degrees from the axes, where the ratio of the
/// components is irrational. So it makes no difference to which of its two
/// sectors a boundary is counted.
pub proof fn lemma_no_gradient_on_a_boundary(gx: int, gy: int)
    requires
        gx != 0 || gy != 0,
    ensures
        span_sq(gx, gy) != 2 * (gx * gx),
        span_sq(gx, gy) != 2 * (gy * gy),
{
    let a = abs(gx);
    let b = abs(gy);
    assert(a * a == gx * gx && b * b == gy * gy) by (nonlinear_arith)
        requires
            a == gx || a == -gx,
            b == gy || b == -gy,
    ;
    if (a + b) * (a + b) == 2 * (a * a) {
        lemma_double_square(a + b, a);
    }
    if (a + b) * (a + b) == 2 * (b * b) {
        lemma_double_square(a + b, b);
    }
}

/// The direction of a gradient does not depend on which way along its
/// line the gradient points.
pub proof fn lemma_classify_undirected(gx: int, gy: int)
    ensures
        classify(-gx, -gy) == classify(gx, gy),
{
    assert((-gx) * (-gx) == gx * gx && (-gy) * (-gy) == gy * gy && (-gx) * (-gy) == gx * gy)
        by (nonlinear_arith);
}

/// Gradients along the axes and the diagonals lie in the sectors named
/// after them.
pub proof fn lemma_sector_centres(g: int)
    requires
        g != 0,
    ensures
        classify(g, 0) == EdgeDirection::Horizontal,
        classify(0, g) == EdgeDirection::Vertical,
        classify(g, g) == EdgeDirection::ForwardDiagonal,
        classify(g, -g) == EdgeDirection::BackDiagonal,
{
    let a = abs(g) as int;
    assert(a * a == g * g && a * a > 0 && (a + a) * (a + a) == 4 * (a * a) && (a + 0) * (a + 0)
        == a * a && (0 + a) * (0 + a) == a * a && (-g) * (-g) == g * g && g * (-g) == -(g * g)
        && 0 * 0 == 0) by (nonlinear_arith)
        requires
            a == g || a == -g,
            g != 0,
    ;
    assert(abs(-g) == a);
}

/// The boundary between the horizontal sector and the diagonals lies
/// between the slopes 2/5 and 5/12, as the tangent of 22.5 degrees does.
pub proof fn lemma_horizontal_boundary(gx: int, gy: int)
    requires
        gx != 0,
    ensures
        5 * abs(gy) <= 2 * abs(gx) ==> in_horizontal_sector(gx, gy),
        12 * abs(gy) >= 5 * abs(gx) ==> !in_horizontal_sector(gx, gy),
{
    let a = abs(gx) as int;
    let b = abs(gy) as int;
    assert(a * a == gx * gx) by (nonlinear_arith)
        requires
            a == gx || a == -gx,
    ;
    assert(5 * b <= 2 * a ==> (a + b) * (a + b) < 2 * (a * a)) by (nonlinear_arith)
        requires
            a > 0,
            b >= 0,
    ;
    assert(12 * b >= 5 * a ==> (a + b) * (a + b) >= 2 * (a * a)) by (nonlinear_arith)
        requires
            a > 0,
            b >= 0,
    ;
}

/// The luminance at a position is a byte under 255.
pub proof fn lemma_luminance_at_bounds(frame: &ImageFrame, x: int, y: int)
    ensures
        0 <= luminance_at(frame, x, y) <= 254,
{
    match frame.pixel_at(x, y) {
        Some(rgb) => {
            crate::tone::lemma_luminance_bounds(rgb.0 as int, rgb.1 as int, rgb.2 as int);
        },
        None => {},
    }
}

/// A gradient component lies between -1016 and 1016, four times the
/// largest luminance, so the squared magnitude fits the cell's field.
pub proof fn lemma_gradient_bounds(frame: &ImageFrame, x: int, y: int)
    ensures
        -1016 <= gradient_x(frame, x, y) <= 1016,
        -1016 <= gradient_y(frame, x, y) <= 1016,
        0 <= magnitude_sq(gradient_x(frame, x, y), gradient_y(frame, x, y)) <= 2 * 1016 * 1016,
{
    lemma_luminance_at_bounds(frame, x - 1, y - 1);
    lemma_luminance_at_bounds(frame, x, y - 1);
    lemma_luminance_at_bounds(frame, x + 1, y - 1);
    lemma_luminance_at_bounds(frame, x - 1, y);
    lemma_luminance_at_bounds(frame, x + 1, y);
    lemma_luminance_at_bounds(frame, x - 1, y + 1);
    lemma_luminance_at_bounds(frame, x, y + 1);
    lemma_luminance_at_bounds(frame, x + 1, y + 1);
    let gx = gradient_x(frame, x, y);
    let gy = gradient_y(frame, x, y);
    assert(-1016 <= gx <= 1016);
    assert(-1016 <= gy <= 1016);
    assert(0 <= gx * gx <= 1016 * 1016 && 0 <= gy * gy <= 1016 * 1016) by (nonlinear_arith)
        requires
            -1016 <= gx <= 1016,
            -1016 <= gy <= 1016,
    ;
}

/// Border cells are flat: a cell on the first or last row or column of the
/// frame, or outside it, has no full neighbourhood.
pub proof fn lemma_border_is_flat(frame: &ImageFrame, x: int, y: int, threshold: int)
    requires
        !(1 <= x < frame.width() - 1 && 1 <= y < frame.height() - 1),
    ensures
        edge_cell(frame, x, y, threshold) == flat_cell(),
{
}

/// In a well-formed frame with at least three bytes per pixel every cell
/// off the border has its full neighbourhood, so its gradient is recorded.
pub proof fn lemma_interior_has_neighbourhood(frame: &ImageFrame, x: int, y: int)
    requires
        frame.wf(),
        frame.bytes_per_pixel() >= 3,
        1 <= x < frame.width() - 1,
        1 <= y < frame.height() - 1,
    ensures
        has_neighbourhood(frame, x, y),
{
    lemma_pixel_present_iff_inside(frame, x - 1, y - 1);
    lemma_pixel_present_iff_inside(frame, x, y - 1);
    lemma_pixel_present_iff_inside(frame, x + 1, y - 1);
    lemma_pixel_present_iff_inside(frame, x - 1, y);
    lemma_pixel_present_iff_inside(frame, x, y);
    lemma_pixel_present_iff_inside(frame, x + 1, y);
    lemma_pixel_present_iff_inside(frame, x - 1, y + 1);
    lemma_pixel_present_iff_inside(frame, x, y + 1);
    lemma_pixel_present_iff_inside(frame, x + 1, y + 1);
}

/// Where the luminance around a cell changes from column to column and not
/// from row to row, the gradient has no vertical component, and the cell's
/// direction is horizontal unless the threshold suppresses it.
pub proof fn lemma_step_across_columns(frame: &ImageFrame, x: int, y: int, threshold: int)
    requires
        has_neighbourhood(frame, x, y),
        luminance_at(frame, x - 1, y - 1) == luminance_at(frame, x - 1, y),
        luminance_at(frame, x - 1, y + 1) == luminance_at(frame, x - 1, y),
        luminance_at(frame, x, y - 1) == luminance_at(frame, x, y + 1),
        luminance_at(frame, x + 1, y - 1) == luminance_at(frame, x + 1, y),
        luminance_at(frame, x + 1, y + 1) == luminance_at(frame, x + 1, y),
        luminance_at(frame, x - 1, y) != luminance_at(frame, x + 1, y),
    ensures
        gradient_y(frame, x, y) == 0,
        gradient_x(frame, x, y) == 4 * (luminance_at(frame, x + 1, y) - luminance_at(
            frame,
            x - 1,
            y,
        )),
        edge_cell(frame, x, y, threshold).direction == if below_threshold(
            gradient_x(frame, x, y),
            0,
            threshold,
        ) {
            EdgeDirection::NoEdge
        } else {
            EdgeDirection::Horizontal
        },
{
    lemma_sector_centres(gradient_x(frame, x, y));
}

/// Where the luminance around a cell changes from row to row and not from
/// column to column, the gradient has no horizontal component, and the
/// cell's direction is vertical unless the threshold suppresses it.
pub proof fn lemma_step_across_rows(frame: &ImageFrame, x: int, y: int, threshold: int)
    requires
        has_neighbourhood(frame, x, y),
        luminance_at(frame, x - 1, y - 1) == luminance_at(frame, x, y - 1),
        luminance_at(frame, x + 1, y - 1) == luminance_at(frame, x, y - 1),
        luminance_at(frame, x - 1, y) == luminance_at(frame, x + 1, y),
        luminance_at(frame, x - 1, y + 1) == luminance_at(frame, x, y + 1),
        luminance_at(frame, x + 1, y + 1) == luminance_at(frame, x, y + 1),
        luminance_at(frame, x, y - 1) != luminance_at(frame, x, y + 1),
    ensures
        gradient_x(frame, x, y) == 0,
        gradient_y(frame, x, y) == 4 * (luminance_at(frame, x, y + 1) - luminance_at(
            frame,
            x,
            y - 1,
        )),
        edge_cell(frame, x, y, threshold).direction == if below_threshold(
            0,
            gradient_y(frame, x, y),
            threshold,
        ) {
            EdgeDirection::NoEdge
        } else {
            EdgeDirection::Vertical
        },
{
    lemma_sector_centres(gradient_y(frame, x, y));
}

/// In every recorded cell the direction is none whenever the magnitude is
/// less than the threshold.
pub proof fn lemma_edge_cell_respects_threshold(
    frame: &ImageFrame,
    x: int,
    y: int,
    threshold: int,
)
    ensures
        MILLI * MILLI * edge_cell(frame, x, y, threshold).magnitude_sq < threshold * threshold
            ==> edge_cell(frame, x, y, threshold).direction == EdgeDirection::NoEdge,
{
    lemma_gradient_bounds(frame, x, y);
}

/// Where every pixel of a frame has the same colour, no cell has an edge,
/// at any threshold.
pub proof fn lemma_uniform_frame_is_flat(
    frame: &ImageFrame,
    rgb: (u8, u8, u8),
    x: int,
    y: int,
    threshold: int,
)
    requires
        forall|px: int, py: int|
            0 <= px < frame.width() && 0 <= py < frame.height() ==> #[trigger] frame.pixel_at(
                px,
                py,
            ) == Some(rgb),
    ensures
        edge_cell(frame, x, y, threshold).direction == EdgeDirection::NoEdge,
{
    if has_neighbourhood(frame, x, y) {
        assert(gradient_x(frame, x, y) == 0);
        assert(gradient_y(frame, x, y) == 0);
        lemma_sectors_partition(0, 0);
    }
}

/// Below the threshold no direction is recorded, and none for the zero
/// gradient at any threshold.
pub proof fn lemma_weak_gradient_has_no_direction(gx: int, gy: int, threshold: int)
    ensures
        below_threshold(gx, gy, threshold) ==> direction_of(gx, gy, threshold)
            == EdgeDirection::NoEdge,
        direction_of(0, 0, threshold) == EdgeDirection::NoEdge,
        !below_threshold(gx, gy, threshold) ==> direction_of(gx, gy, threshold) == classify(
            gx,
            gy,
        ),
{
    lemma_sectors_partition(0, 0);
}

} // verus!
