use vstd::prelude::*;
use crate::error::FrameError;

verus! {

/// A fixed-size grid of characters, stored row by row.
#[derive(Debug)]
pub struct AsciiFrame {
    w: usize,
    h: usize,
    chars: Vec<char>,
}

impl View for AsciiFrame {
    type V = Seq<char>;

    /// The frame's characters, in storage order.
    closed spec fn view(&self) -> Seq<char> {
        self.chars@
    }
}

impl AsciiFrame {
    /// Number of cells in a row.
    pub closed spec fn spec_width(&self) -> usize {
        self.w
    }

    /// Number of rows.
    pub closed spec fn spec_height(&self) -> usize {
        self.h
    }

    /// The dimensions are positive and the buffer holds exactly
    /// `width * height` characters.
    pub open spec fn wf(&self) -> bool {
        &&& self.width() > 0
        &&& self.height() > 0
        &&& self@.len() == self.width() * self.height()
    }

    /// Whether `(x, y)` names a cell of the grid that the buffer holds.
    pub open spec fn in_bounds(&self, x: int, y: int) -> bool {
        &&& 0 <= x < self.width()
        &&& 0 <= y < self.height()
        &&& y * self.width() + x < self@.len()
    }

    /// The character at `(x, y)`, or nothing outside the grid.
    pub open spec fn char_at(&self, x: int, y: int) -> Option<char> {
        if self.in_bounds(x, y) {
            Some(self@[y * self.width() + x])
        } else {
            None
        }
    }

    #[verifier::when_used_as_spec(spec_width)]
    pub fn width(&self) -> (r: usize)
        ensures
            r == self.width(),
    {
        self.w
    }

    #[verifier::when_used_as_spec(spec_height)]
    pub fn height(&self) -> (r: usize)
        ensures
            r == self.height(),
    {
        self.h
    }

    /// Whether the dimensions are positive and agree with the buffer's
    /// length.
    pub fn is_well_formed(&self) -> (b: bool)
        ensures
            b == self.wf(),
    {
        if self.w == 0 || self.h == 0 {
            return false;
        }
        assert(self.w * self.h <= u128::MAX) by (nonlinear_arith)
            requires
                self.w <= u64::MAX,
                self.h <= u64::MAX,
        ;
        self.chars.len() as u128 == (self.w as u128) * (self.h as u128)
    }

    /// A grid of the given dimensions with `default_char` in every cell.
    pub fn new(w: usize, h: usize, default_char: char) -> (r: Result<Self, FrameError>)
        requires
            w * h <= usize::MAX,
        ensures
            r is Err <==> (w == 0 || h == 0),
            r is Err ==> r == Err::<Self, FrameError>(FrameError::InvalidDimensions),
            r matches Ok(f) ==> {
                &&& f.width() == w
                &&& f.height() == h
                &&& f.wf()
                &&& f@ == Seq::new((w * h) as nat, |i: int| default_char)
            },
    {
        if w == 0 || h == 0 {
            return Err(FrameError::InvalidDimensions);
        }
        let len: usize = w * h;
        let chars: Vec<char> = vec![default_char; len];
        assert(chars@ =~= Seq::new(len as nat, |i: int| default_char));
        Ok(Self { w, h, chars })
    }

    /// Writes `c` at `(x, y)` and reports success; outside the grid nothing
    /// is written and the call reports failure.
    pub fn set_char(&mut self, x: usize, y: usize, c: char) -> (ok: bool)
        ensures
            ok == old(self).in_bounds(x as int, y as int),
            final(self).width() == old(self).width(),
            final(self).height() == old(self).height(),
            ok ==> final(self)@ == old(self)@.update(y * old(self).width() + x, c),
            !ok ==> final(self)@ == old(self)@,
            old(self).wf() ==> final(self).wf(),
            old(self).wf() ==> (ok <==> (x < old(self).width() && y < old(self).height())),
    {
        proof {
            if old(self).wf() {
                lemma_in_bounds_iff_inside(&*old(self), x as int, y as int);
            }
        }
        if x >= self.w || y >= self.h {
            return false;
        }
        let len: usize = self.chars.len();
        assert(y * self.w + x <= u128::MAX) by (nonlinear_arith)
            requires
                y <= u64::MAX,
                self.w <= u64::MAX,
                x <= u64::MAX,
        ;
        let cell: u128 = (y as u128) * (self.w as u128) + (x as u128);
        if cell < len as u128 {
            let idx: usize = cell as usize;
            self.chars[idx] = c;
            true
        } else {
            false
        }
    }

    /// The character at `(x, y)`, if the position lies inside the grid.
    pub fn get_char(&self, x: usize, y: usize) -> (r: Option<char>)
        ensures
            r == self.char_at(x as int, y as int),
            self.wf() ==> (r is Some <==> (x < self.width() && y < self.height())),
    {
        proof {
            if self.wf() {
                lemma_in_bounds_iff_inside(self, x as int, y as int);
            }
        }
        if x >= self.w || y >= self.h {
            return None;
        }
        let len: usize = self.chars.len();
        assert(y * self.w + x <= u128::MAX) by (nonlinear_arith)
            requires
                y <= u64::MAX,
                self.w <= u64::MAX,
                x <= u64::MAX,
        ;
        let cell: u128 = (y as u128) * (self.w as u128) + (x as u128);
        if cell < len as u128 {
            Some(self.chars[cell as usize])
        } else {
            None
        }
    }

    /// The whole grid, row by row, for reading.
    pub fn chars(&self) -> (r: &[char])
        ensures
            r@ == self@,
    {
        self.chars.as_slice()
    }
}

/// In a well-formed frame the cells of the grid are exactly the positions
/// with `x < width` and `y < height`.
pub proof fn lemma_in_bounds_iff_inside(frame: &AsciiFrame, x: int, y: int)
    requires
        frame.wf(),
    ensures
        frame.in_bounds(x, y) <==> (0 <= x < frame.width() && 0 <= y < frame.height()),
{
    if 0 <= x < frame.width() && 0 <= y < frame.height() {
        lemma_cell_index_inside(frame.width() as int, frame.height() as int, x, y);
    }
}

/// The row-major index of a cell inside a `w` by `h` grid lies in
/// `[0, w * h)`.
pub proof fn lemma_cell_index_inside(w: int, h: int, x: int, y: int)
    requires
        0 <= x < w,
        0 <= y < h,
    ensures
        0 <= y * w + x < w * h,
{
    assert(0 <= y * w + x < w * h) by (nonlinear_arith)
        requires
            0 <= x < w,
            0 <= y < h,
    ;
}

} // verus!
