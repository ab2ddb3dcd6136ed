use vstd::prelude::*;
use crate::error::FrameError;

verus! {

/// A fixed-size frame of interleaved colour samples, stored row by row.
///
/// The dimensions are fixed when the frame is made. The buffer is reached
/// only through the accessors, which may change its bytes and never its
/// length.
#[derive(Debug)]
pub struct ImageFrame {
    w: usize,
    h: usize,
    /// usually 3 (RGB)
    bytes_per_pixel: usize,
    buffer: Vec<u8>,
}

impl View for ImageFrame {
    type V = Seq<u8>;

    /// The frame's bytes, in storage order.
    closed spec fn view(&self) -> Seq<u8> {
        self.buffer@
    }
}

/// `Vec::as_mut_slice`: the vector's contents as a mutable slice.
///
/// Believed without proof: the slice starts out holding what the vector
/// holds; the vector ends up holding what the slice is left with; and, a
/// slice being of fixed size, what it is left with is as long as what it
/// started with. The first two are what vstd says of the function; the
/// third is what lets `buffer_mut` promise that the frame stays well formed.
#[verifier::external_body]
fn vec_as_mut_slice(v: &mut Vec<u8>) -> (r: &mut [u8])
    ensures
        r@ == old(v)@,
        final(v)@ == final(r)@,
        final(r)@.len() == r@.len(),
{
    v.as_mut_slice()
}

/// Position in the buffer of the first byte of pixel `(x, y)`.
pub open spec fn pixel_offset(w: int, bytes_per_pixel: int, x: int, y: int) -> int {
    (y * w + x) * bytes_per_pixel
}

impl ImageFrame {
    /// Number of pixels in a row.
    pub closed spec fn spec_width(&self) -> usize {
        self.w
    }

    /// Number of rows.
    pub closed spec fn spec_height(&self) -> usize {
        self.h
    }

    /// Number of bytes that one pixel takes in the buffer.
    pub closed spec fn spec_bytes_per_pixel(&self) -> usize {
        self.bytes_per_pixel
    }

    /// The dimensions are positive and the buffer holds exactly
    /// `width * height * bytes_per_pixel` bytes.
    pub open spec fn wf(&self) -> bool {
        &&& self.width() > 0
        &&& self.height() > 0
        &&& self.bytes_per_pixel() > 0
        &&& self@.len() == self.width() * self.height() * self.bytes_per_pixel()
    }

    /// The buffer's length is a machine size.
    pub proof fn lemma_len_fits(&self)
        ensures
            self@.len() <= usize::MAX,
    {
        assert(self.buffer@.len() == self.buffer.len());
    }

    #[verifier::when_used_as_spec(spec_width)]
    pub fn width(&self) -> (r: usize)
        ensures
            r == self.width(),
    {
        self.w
    }

    #[verifier::when_used_as_spec(spec_height)]
    pub fn height(&self) -> (r: usize)
        ensures
            r == self.height(),
    {
        self.h
    }

    #[verifier::when_used_as_spec(spec_bytes_per_pixel)]
    pub fn bytes_per_pixel(&self) -> (r: usize)
        ensures
            r == self.bytes_per_pixel(),
    {
        self.bytes_per_pixel
    }

    /// The colour at `(x, y)`: the first three bytes of that pixel, or
    /// nothing where the position lies outside the frame or the three bytes
    /// do not all lie inside the buffer.
    pub open spec fn pixel_at(&self, x: int, y: int) -> Option<(u8, u8, u8)> {
        let i = pixel_offset(self.width() as int, self.bytes_per_pixel() as int, x, y);
        if 0 <= x < self.width() && 0 <= y < self.height() && i + 2 < self@.len() {
            Some((self@[i], self@[i + 1], self@[i + 2]))
        } else {
            None
        }
    }

    /// Whether the dimensions are positive and agree with the buffer's
    /// length.
    pub fn is_well_formed(&self) -> (b: bool)
        ensures
            b == self.wf(),
    {
        if self.w == 0 || self.h == 0 || self.bytes_per_pixel == 0 {
            return false;
        }
        assert(self.w * self.h <= u128::MAX) by (nonlinear_arith)
            requires
                self.w <= u64::MAX,
                self.h <= u64::MAX,
        ;
        let cells: u128 = (self.w as u128) * (self.h as u128);
        let len: usize = self.buffer.len();
        match cells.checked_mul(self.bytes_per_pixel as u128) {
            Some(expected) => len as u128 == expected,
            None => false,
        }
    }

    /// A black frame of the given dimensions.
    pub fn new(w: usize, h: usize, bytes_per_pixel: usize) -> (r: Result<Self, FrameError>)
        requires
            w * h * bytes_per_pixel <= usize::MAX,
        ensures
            r is Err <==> (w == 0 || h == 0 || bytes_per_pixel == 0),
            r is Err ==> r == Err::<Self, FrameError>(FrameError::InvalidDimensions),
            r matches Ok(f) ==> {
                &&& f.width() == w
                &&& f.height() == h
                &&& f.bytes_per_pixel() == bytes_per_pixel
                &&& f.wf()
                &&& f@ == Seq::new((w * h * bytes_per_pixel) as nat, |i: int| 0u8)
            },
    {
        if w == 0 || h == 0 || bytes_per_pixel == 0 {
            return Err(FrameError::InvalidDimensions);
        }
        assert(w * h <= w * h * bytes_per_pixel) by (nonlinear_arith)
            requires
                w > 0,
                h > 0,
                bytes_per_pixel > 0,
        ;
        let len: usize = w * h * bytes_per_pixel;
        let buffer: Vec<u8> = vec![0u8; len];
        assert(buffer@ =~= Seq::new(len as nat, |i: int| 0u8));
        Ok(Self { w, h, bytes_per_pixel, buffer })
    }

    /// The whole buffer, for reading.
    pub fn buffer(&self) -> (r: &[u8])
        ensures
            r@ == self@,
    {
        self.buffer.as_slice()
    }

    /// The whole buffer, for overwriting in place. The dimensions stay as
    /// they are, and the frame ends up holding what the caller leaves in the
    /// slice.
    pub fn buffer_mut(&mut self) -> (r: &mut [u8])
        ensures
            r@ == old(self)@,
            final(self)@ == final(r)@,
            final(self).width() == old(self).width(),
            final(self).height() == old(self).height(),
            final(self).bytes_per_pixel() == old(self).bytes_per_pixel(),
            old(self).wf() ==> final(self).wf(),
    {
        vec_as_mut_slice(&mut self.buffer)
    }

    /// Overwrites the whole buffer with `bytes`. Refused, with the frame
    /// left as it was, where `bytes` has another length than the buffer.
    pub fn load(&mut self, bytes: &[u8]) -> (r: Result<(), FrameError>)
        ensures
            final(self).width() == old(self).width(),
            final(self).height() == old(self).height(),
            final(self).bytes_per_pixel() == old(self).bytes_per_pixel(),
            old(self).wf() ==> final(self).wf(),
            r is Ok <==> bytes@.len() == old(self)@.len(),
            r is Ok ==> final(self)@ == bytes@,
            r is Err ==> r == Err::<(), FrameError>(FrameError::ConversionError) && final(self)@
                == old(self)@,
    {
        let len: usize = self.buffer.len();
        if bytes.len() != len {
            return Err(FrameError::ConversionError);
        }
        let mut i: usize = 0;
        while i < len
            invariant
                i <= len,
                len == bytes@.len(),
                self.buffer@.len() == len,
                self.w == old(self).w,
                self.h == old(self).h,
                self.bytes_per_pixel == old(self).bytes_per_pixel,
                forall|j: int| 0 <= j < i ==> self.buffer@[j] == bytes@[j],
            decreases len - i,
        {
            self.buffer[i] = bytes[i];
            i += 1;
        }
        assert(self.buffer@ =~= bytes@);
        Ok(())
    }

    /// The colour at `(x, y)`, if the position lies inside the frame and its
    /// three bytes inside the buffer. In a well-formed frame with at least
    /// three bytes per pixel that is every position inside the frame.
    pub fn get_pixel(&self, x: usize, y: usize) -> (r: Option<(u8, u8, u8)>)
        ensures
            r == self.pixel_at(x as int, y as int),
            self.wf() && self.bytes_per_pixel() >= 3 ==> (r is Some <==> (x < self.width() && y
                < self.height())),
    {
        proof {
            if self.wf() && self.bytes_per_pixel() >= 3 {
                lemma_pixel_present_iff_inside(self, x as int, y as int);
            }
        }
        if x >= self.w || y >= self.h {
            return None;
        }
        let len: usize = self.buffer.len();
        if len < 3 {
            return None;
        }
        assert(y * self.w + x <= u128::MAX) by (nonlinear_arith)
            requires
                y <= u64::MAX,
                self.w <= u64::MAX,
                x <= u64::MAX,
        ;
        let cell: u128 = (y as u128) * (self.w as u128) + (x as u128);
        let offset: u128 = match cell.checked_mul(self.bytes_per_pixel as u128) {
            Some(v) => v,
            None => {
                return None;
            },
        };
        if offset > (len - 3) as u128 {
            return None;
        }
        let i: usize = offset as usize;
        Some((self.buffer[i], self.buffer[i + 1], self.buffer[i + 2]))
    }
}

/// In a well-formed frame with at least three bytes per pixel, a pixel is
/// present exactly at the positions inside the frame.
pub proof fn lemma_pixel_present_iff_inside(frame: &ImageFrame, x: int, y: int)
    requires
        frame.wf(),
        frame.bytes_per_pixel() >= 3,
    ensures
        frame.pixel_at(x, y) is Some <==> (0 <= x < frame.width() && 0 <= y < frame.height()),
{
    if 0 <= x < frame.width() && 0 <= y < frame.height() {
        lemma_offset_inside(
            frame.width() as int,
            frame.height() as int,
            frame.bytes_per_pixel() as int,
            x,
            y,
        );
    }
}

/// The last byte of a pixel inside a `w` by `h` grid of cells of `b >= 3`
/// bytes lies before `w * h * b`.
pub proof fn lemma_offset_inside(w: int, h: int, b: int, x: int, y: int)
    requires
        0 <= x < w,
        0 <= y < h,
        b >= 3,
    ensures
        0 <= pixel_offset(w, b, x, y),
        pixel_offset(w, b, x, y) + b <= w * h * b,
        pixel_offset(w, b, x, y) + 2 < w * h * b,
{
    assert(y * w + x + 1 <= w * h) by (nonlinear_arith)
        requires
            0 <= x < w,
            0 <= y < h,
    ;
    assert(0 <= y * w + x) by (nonlinear_arith)
        requires
            0 <= x < w,
            0 <= y < h,
    ;
    assert((y * w + x + 1) * b <= (w * h) * b) by (nonlinear_arith)
        requires
            y * w + x + 1 <= w * h,
            b >= 3,
    ;
    assert((y * w + x + 1) * b == (y * w + x) * b + b) by (nonlinear_arith);
    assert(0 <= (y * w + x) * b) by (nonlinear_arith)
        requires
            0 <= y * w + x,
            b >= 3,
    ;
}

} // verus!
