use vstd::prelude::*;
use crate::ascii_frame::{lemma_cell_index_inside, AsciiFrame};
use crate::edge_detector::{
    edge_cell,
    lemma_edge_cell_respects_threshold,
    lemma_uniform_frame_is_flat,
    EdgeDetector,
};
use crate::edge_map::{EdgeCell, EdgeDirection, EdgeMap};
use crate::error::FrameError;
use crate::image_frame::ImageFrame;
use crate::sampling::{lemma_source_coordinate_in_range, scale_coordinate, source_coordinate};
use crate::tone::{
    adjust_channel,
    adjusted_pixel,
    gradient_index,
    index_for,
    lemma_adjusted_channel_is_byte,
    lemma_gradient_index_in_range,
    lemma_luminance_bounds,
    luminance,
    luminance_of,
    MILLI,
};

verus! {

/// A converter's settings as mathematical values.
pub struct ConverterSettings {
    /// The intensity ramp, darkest first.
    pub intensity: Seq<char>,
    /// The glyphs for cells crossed by a horizontal gradient.
    pub horizontal: Seq<char>,
    /// The glyphs for cells crossed by a vertical gradient.
    pub vertical: Seq<char>,
    /// The glyphs for cells crossed by a forward-diagonal gradient.
    pub forward: Seq<char>,
    /// The glyphs for cells crossed by a back-diagonal gradient.
    pub back: Seq<char>,
    /// Width of the frames that the converter reads.
    pub source_w: int,
    /// Height of the frames that the converter reads.
    pub source_h: int,
    /// Edge threshold, in thousandths.
    pub threshold: int,
    /// Contrast factor, in thousandths.
    pub contrast: int,
    /// Brightness offset, in thousandths.
    pub brightness: int,
}

impl ConverterSettings {
    /// The source dimensions are positive and no gradient is empty.
    pub open spec fn wf(self) -> bool {
        &&& self.source_w > 0
        &&& self.source_h > 0
        &&& self.intensity.len() > 0
        &&& self.horizontal.len() > 0
        &&& self.vertical.len() > 0
        &&& self.forward.len() > 0
        &&& self.back.len() > 0
    }

    /// The gradient that cells of the given direction draw from.
    pub open spec fn gradient_for(self, direction: EdgeDirection) -> Seq<char> {
        match direction {
            EdgeDirection::NoEdge => self.intensity,
            EdgeDirection::Horizontal => self.horizontal,
            EdgeDirection::Vertical => self.vertical,
            EdgeDirection::ForwardDiagonal => self.forward,
            EdgeDirection::BackDiagonal => self.back,
        }
    }

    /// The luminance of a colour after the adjustment for contrast and
    /// brightness.
    pub open spec fn adjusted_luminance(self, rgb: (u8, u8, u8)) -> int {
        let adjusted = adjusted_pixel(rgb, self.contrast, self.brightness);
        luminance(adjusted.0, adjusted.1, adjusted.2)
    }

    /// The character for a colour in a cell of the given direction: the
    /// direction picks the gradient, the adjusted luminance the place in it.
    pub open spec fn char_for(self, rgb: (u8, u8, u8), direction: EdgeDirection) -> char {
        let gradient = self.gradient_for(direction);
        gradient[gradient_index(self.adjusted_luminance(rgb), gradient.len() as int)]
    }
}

/// The direction that counts for a cell of an edge map at the converter's
/// threshold: none where the cell's magnitude is less than the threshold,
/// else the direction that the cell records.
pub open spec fn effective_direction(cell: EdgeCell, threshold: int) -> EdgeDirection {
    if MILLI * MILLI * cell.magnitude_sq < threshold * threshold {
        EdgeDirection::NoEdge
    } else {
        cell.direction
    }
}

/// The direction that counts for destination cell `(cx, cy)` of a
/// `dest_w` by `dest_h` grid: that of the map's cell which the destination
/// cell falls on when the grid is laid over the map; none without a map.
pub open spec fn map_direction(
    edges: Option<&EdgeMap>,
    threshold: int,
    dest_w: int,
    dest_h: int,
    cx: int,
    cy: int,
) -> EdgeDirection {
    match edges {
        Some(map) => effective_direction(
            map.cell_at(
                source_coordinate(cx, map.width() as int, dest_w),
                source_coordinate(cy, map.height() as int, dest_h),
            ),
            threshold,
        ),
        None => EdgeDirection::NoEdge,
    }
}

/// The direction that counts for destination cell `(cx, cy)` when the edges
/// are detected on the frame itself: that of the source pixel which the cell
/// reads.
pub open spec fn frame_direction(
    frame: &ImageFrame,
    threshold: int,
    dest_w: int,
    dest_h: int,
    cx: int,
    cy: int,
) -> EdgeDirection {
    edge_cell(
        frame,
        source_coordinate(cx, frame.width() as int, dest_w),
        source_coordinate(cy, frame.height() as int, dest_h),
        threshold,
    ).direction
}

/// Where a conversion takes its edges from.
#[derive(Clone, Copy, Debug)]
pub enum EdgeSource<'a> {
    /// Nowhere: every cell draws from the intensity ramp.
    Flat,
    /// The frame that is converted: the detector is run on each source
    /// pixel that a cell reads.
    Frame,
    /// An edge map made earlier, perhaps of an earlier frame.
    Snapshot(&'a EdgeMap),
}

/// The direction that counts for destination cell `(cx, cy)` of a
/// `dest_w` by `dest_h` grid, by where the edges are taken from.
pub open spec fn source_direction(
    source: EdgeSource,
    frame: &ImageFrame,
    threshold: int,
    dest_w: int,
    dest_h: int,
    cx: int,
    cy: int,
) -> EdgeDirection {
    match source {
        EdgeSource::Flat => EdgeDirection::NoEdge,
        EdgeSource::Frame => frame_direction(frame, threshold, dest_w, dest_h, cx, cy),
        EdgeSource::Snapshot(map) => map_direction(Some(map), threshold, dest_w, dest_h, cx, cy),
    }
}

/// What destination cell `(cx, cy)` holds after a conversion in which the
/// given direction counts for it: the character for the source pixel that the
/// cell reads, or, where the frame has no such pixel, what the cell held
/// before.
pub open spec fn converted_char(
    settings: ConverterSettings,
    frame: &ImageFrame,
    direction: EdgeDirection,
    dest: &AsciiFrame,
    cx: int,
    cy: int,
) -> char {
    let sx = source_coordinate(cx, frame.width() as int, dest.width() as int);
    let sy = source_coordinate(cy, frame.height() as int, dest.height() as int);
    match frame.pixel_at(sx, sy) {
        Some(rgb) => settings.char_for(rgb, direction),
        None => dest@[cy * dest.width() + cx],
    }
}

/// What destination cell `(cx, cy)` holds after a conversion that takes
/// its edges from `source`.
pub open spec fn converted_cell(
    settings: ConverterSettings,
    frame: &ImageFrame,
    source: EdgeSource,
    dest: &AsciiFrame,
    cx: int,
    cy: int,
) -> char {
    converted_char(
        settings,
        frame,
        source_direction(
            source,
            frame,
            settings.threshold,
            dest.width() as int,
            dest.height() as int,
            cx,
            cy,
        ),
        dest,
        cx,
        cy,
    )
}

/// Whether a conversion can go ahead: the converter's settings are valid,
/// both frames are well formed, and the pixel frame has the dimensions that
/// the converter was made for.
pub open spec fn convertible(
    settings: ConverterSettings,
    frame: &ImageFrame,
    dest: &AsciiFrame,
) -> bool {
    &&& settings.wf()
    &&& frame.wf()
    &&& dest.wf()
    &&& frame.width() == settings.source_w
    &&& frame.height() == settings.source_h
}

/// Turns pixel frames into character frames.
#[derive(Debug)]
pub struct AsciiConverter {
    intensity: Vec<char>,
    horizontal: Vec<char>,
    vertical: Vec<char>,
    forward: Vec<char>,
    back: Vec<char>,
    source_w: usize,
    source_h: usize,
    threshold: u32,
    contrast: i32,
    brightness: i32,
}

impl View for AsciiConverter {
    type V = ConverterSettings;

    closed spec fn view(&self) -> ConverterSettings {
        ConverterSettings {
            intensity: self.intensity@,
            horizontal: self.horizontal@,
            vertical: self.vertical@,
            forward: self.forward@,
            back: self.back@,
            source_w: self.source_w as int,
            source_h: self.source_h as int,
            threshold: self.threshold as int,
            contrast: self.contrast as int,
            brightness: self.brightness as int,
        }
    }
}

impl AsciiConverter {
    /// Default intensity ramp, darkest first.
    pub const DEFAULT_ASCII: &'static str = " .:coPO?@■";

    /// A converter for frames of `source_w` by `source_h` pixels. The
    /// threshold, the contrast and the brightness are given in thousandths.
    /// Zero dimensions are refused first, then an empty gradient.
    pub fn new(
        intensity: Vec<char>,
        horizontal: Vec<char>,
        vertical: Vec<char>,
        forward: Vec<char>,
        back: Vec<char>,
        source_w: usize,
        source_h: usize,
        threshold: u32,
        contrast: i32,
        brightness: i32,
    ) -> (r: Result<Self, FrameError>)
        ensures
            (source_w == 0 || source_h == 0) ==> r == Err::<Self, FrameError>(
                FrameError::InvalidDimensions,
            ),
            (source_w > 0 && source_h > 0 && (intensity@.len() == 0 || horizontal@.len() == 0
                || vertical@.len() == 0 || forward@.len() == 0 || back@.len() == 0)) ==> r == Err::<
                Self,
                FrameError,
            >(FrameError::EmptyGradient),
            (source_w > 0 && source_h > 0 && intensity@.len() > 0 && horizontal@.len() > 0
                && vertical@.len() > 0 && forward@.len() > 0 && back@.len() > 0) ==> r is Ok,
            r matches Ok(c) ==> c@.wf() && c@ == (ConverterSettings {
                intensity: intensity@,
                horizontal: horizontal@,
                vertical: vertical@,
                forward: forward@,
                back: back@,
                source_w: source_w as int,
                source_h: source_h as int,
                threshold: threshold as int,
                contrast: contrast as int,
                brightness: brightness as int,
            }),
    {
        if source_w == 0 || source_h == 0 {
            return Err(FrameError::InvalidDimensions);
        }
        if intensity.len() == 0 || horizontal.len() == 0 || vertical.len() == 0 || forward.len()
            == 0 || back.len() == 0 {
            return Err(FrameError::EmptyGradient);
        }
        Ok(
            Self {
                intensity,
                horizontal,
                vertical,
                forward,
                back,
                source_w,
                source_h,
                threshold,
                contrast,
                brightness,
            },
        )
    }

    /// Whether the source dimensions are positive and no gradient is empty.
    pub fn is_well_formed(&self) -> (b: bool)
        ensures
            b == self@.wf(),
    {
        self.source_w > 0 && self.source_h > 0 && self.intensity.len() > 0
            && self.horizontal.len() > 0 && self.vertical.len() > 0 && self.forward.len() > 0
            && self.back.len() > 0
    }

    /// Converts a pixel frame into a character frame, with the edges
    /// detected on the pixel frame itself.
    ///
    /// Fails, and leaves the character frame as it was, exactly when the
    /// conversion cannot go ahead. Otherwise every cell of the character
    /// frame ends up holding its converted character.
    pub fn convert(&self, i_frame: &ImageFrame, a_frame: &mut AsciiFrame) -> (r: Result<
        (),
        FrameError,
    >)
        ensures
            final(a_frame).width() == old(a_frame).width(),
            final(a_frame).height() == old(a_frame).height(),
            r is Ok <==> convertible(self@, i_frame, old(a_frame)),
            r is Err ==> r == Err::<(), FrameError>(FrameError::ConversionError),
            r is Err ==> final(a_frame)@ == old(a_frame)@,
            r is Ok ==> final(a_frame).wf() && forall|cx: int, cy: int|
                0 <= cx < old(a_frame).width() && 0 <= cy < old(a_frame).height()
                    ==> #[trigger] final(a_frame).char_at(cx, cy) == Some(
                    converted_cell(self@, i_frame, EdgeSource::Frame, old(a_frame), cx, cy),
                ),
    {
        self.convert_with(i_frame, EdgeSource::Frame, a_frame)
    }

    /// Converts a pixel frame into a character frame, with the edges taken
    /// from `source`.
    ///
    /// Fails, and leaves the character frame as it was, exactly when the
    /// conversion cannot go ahead. Otherwise every cell of the character
    /// frame ends up holding its converted character.
    pub fn convert_with(
        &self,
        i_frame: &ImageFrame,
        source: EdgeSource,
        a_frame: &mut AsciiFrame,
    ) -> (r: Result<(), FrameError>)
        ensures
            final(a_frame).width() == old(a_frame).width(),
            final(a_frame).height() == old(a_frame).height(),
            r is Ok <==> convertible(self@, i_frame, old(a_frame)),
            r is Err ==> r == Err::<(), FrameError>(FrameError::ConversionError),
            r is Err ==> final(a_frame)@ == old(a_frame)@,
            r is Ok ==> final(a_frame).wf() && forall|cx: int, cy: int|
                0 <= cx < old(a_frame).width() && 0 <= cy < old(a_frame).height()
                    ==> #[trigger] final(a_frame).char_at(cx, cy) == Some(
                    converted_cell(self@, i_frame, source, old(a_frame), cx, cy),
                ),
    {
        if !self.is_well_formed() || !i_frame.is_well_formed() || !a_frame.is_well_formed()
            || i_frame.width() != self.source_w || i_frame.height() != self.source_h {
            return Err(FrameError::ConversionError);
        }
        let w: usize = a_frame.width();
        let h: usize = a_frame.height();
        let src_w: usize = i_frame.width();
        let src_h: usize = i_frame.height();
        let detector = EdgeDetector::new(self.threshold);
        let ghost before = *a_frame;
        let mut cy: usize = 0;
        while cy < h
            invariant
                cy <= h,
                self@.wf(),
                before.wf(),
                before.width() == w,
                before.height() == h,
                a_frame.width() == w,
                a_frame.height() == h,
                a_frame@.len() == before@.len(),
                src_w == i_frame.width(),
                src_h == i_frame.height(),
                detector.threshold() == self@.threshold,
                forall|xx: int, yy: int|
                    0 <= xx < w && 0 <= yy < cy ==> a_frame@[yy * w + xx]
                        == #[trigger] converted_cell(self@, i_frame, source, &before, xx, yy),
                forall|i: int| cy * w <= i < before@.len() ==> a_frame@[i] == before@[i],
            decreases h - cy,
        {
            let sy: usize = scale_coordinate(cy, src_h, h);
            let mut cx: usize = 0;
            while cx < w
                invariant
                    cx <= w,
                    cy < h,
                    self@.wf(),
                    before.wf(),
                    before.width() == w,
                    before.height() == h,
                    a_frame.width() == w,
                    a_frame.height() == h,
                    a_frame@.len() == before@.len(),
                    src_w == i_frame.width(),
                    src_h == i_frame.height(),
                    sy == source_coordinate(cy as int, src_h as int, h as int),
                    detector.threshold() == self@.threshold,
                    forall|xx: int, yy: int|
                        0 <= xx < w && 0 <= yy < cy ==> a_frame@[yy * w + xx]
                            == #[trigger] converted_cell(self@, i_frame, source, &before, xx, yy),
                    forall|xx: int|
                        0 <= xx < cx ==> a_frame@[cy * w + xx] == #[trigger] converted_cell(
                            self@,
                            i_frame,
                            source,
                            &before,
                            xx,
                            cy as int,
                        ),
                    forall|i: int| cy * w + cx <= i < before@.len() ==> a_frame@[i] == before@[i],
                decreases w - cx,
            {
                let sx: usize = scale_coordinate(cx, src_w, w);
                let ghost earlier = a_frame@;
                proof {
                    lemma_cell_index_inside(w as int, h as int, cx as int, cy as int);
                }
                match i_frame.get_pixel(sx, sy) {
                    Some(rgb) => {
                        let direction = match source {
                            EdgeSource::Flat => EdgeDirection::NoEdge,
                            EdgeSource::Frame => detector.detect_cell(i_frame, sx, sy).direction,
                            EdgeSource::Snapshot(map) => self.map_cell_direction(map, w, h, cx, cy),
                        };
                        let c = self.select_char(rgb, direction);
                        let written = a_frame.set_char(cx, cy, c);
                        assert(written);
                    },
                    None => {},
                }
                proof {
                    assert(a_frame@[cy * w + cx] == converted_cell(
                        self@,
                        i_frame,
                        source,
                        &before,
                        cx as int,
                        cy as int,
                    ));
                    assert forall|xx: int, yy: int| 0 <= xx < w && 0 <= yy < cy implies a_frame@[yy
                        * w + xx] == #[trigger] converted_cell(
                        self@,
                        i_frame,
                        source,
                        &before,
                        xx,
                        yy,
                    ) by {
                        lemma_cell_index_inside(w as int, cy as int, xx, yy);
                        assert(earlier[yy * w + xx] == converted_cell(
                            self@,
                            i_frame,
                            source,
                            &before,
                            xx,
                            yy,
                        ));
                    }
                }
                cx += 1;
            }
            proof {
                assert(cy * w + w == (cy + 1) * w) by (nonlinear_arith);
            }
            cy += 1;
        }
        proof {
            assert forall|x: int, y: int|
                0 <= x < w && 0 <= y < h implies #[trigger] a_frame.char_at(x, y) == Some(
                converted_cell(self@, i_frame, source, &before, x, y),
            ) by {
                lemma_cell_index_inside(w as int, h as int, x, y);
            }
        }
        Ok(())
    }

    /// The direction that counts for destination cell `(cx, cy)` on an edge
    /// map laid under a `dest_w` by `dest_h` grid.
    fn map_cell_direction(
        &self,
        map: &EdgeMap,
        dest_w: usize,
        dest_h: usize,
        cx: usize,
        cy: usize,
    ) -> (d: EdgeDirection)
        requires
            cx < dest_w,
            cy < dest_h,
        ensures
            d == map_direction(
                Some(map),
                self@.threshold,
                dest_w as int,
                dest_h as int,
                cx as int,
                cy as int,
            ),
    {
        let ex: usize = scale_coordinate(cx, map.width(), dest_w);
        let ey: usize = scale_coordinate(cy, map.height(), dest_h);
        let cell = map.cell(ex, ey);
        let t: u64 = self.threshold as u64;
        assert(t * t <= u64::MAX) by (nonlinear_arith)
            requires
                0 <= t <= 0xffff_ffff,
        ;
        let m: u64 = cell.magnitude_sq as u64;
        assert(1_000_000 * m <= u64::MAX) by (nonlinear_arith)
            requires
                m <= 0xffff_ffff,
        ;
        if 1_000_000u64 * m < t * t {
            EdgeDirection::NoEdge
        } else {
            cell.direction
        }
    }

    /// A colour with each channel adjusted for contrast and brightness.
    pub fn adjust_pixel(&self, rgb: (u8, u8, u8)) -> (out: (u8, u8, u8))
        ensures
            (out.0 as int, out.1 as int, out.2 as int) == adjusted_pixel(
                rgb,
                self@.contrast,
                self@.brightness,
            ),
    {
        (
            adjust_channel(rgb.0, self.contrast, self.brightness),
            adjust_channel(rgb.1, self.contrast, self.brightness),
            adjust_channel(rgb.2, self.contrast, self.brightness),
        )
    }

    /// The luminance of a colour.
    pub fn calculate_intensity(&self, rgb: (u8, u8, u8)) -> (l: u8)
        ensures
            l == luminance(rgb.0 as int, rgb.1 as int, rgb.2 as int),
    {
        luminance_of(rgb.0, rgb.1, rgb.2)
    }

    /// The character for a colour in a cell of the given direction.
    pub fn select_char(&self, rgb: (u8, u8, u8), direction: EdgeDirection) -> (c: char)
        requires
            self@.wf(),
        ensures
            c == self@.char_for(rgb, direction),
    {
        let adjusted = self.adjust_pixel(rgb);
        let l: u8 = self.calculate_intensity(adjusted);
        match direction {
            EdgeDirection::NoEdge => self.intensity[index_for(l, self.intensity.len())],
            EdgeDirection::Horizontal => self.horizontal[index_for(l, self.horizontal.len())],
            EdgeDirection::Vertical => self.vertical[index_for(l, self.vertical.len())],
            EdgeDirection::ForwardDiagonal => self.forward[index_for(l, self.forward.len())],
            EdgeDirection::BackDiagonal => self.back[index_for(l, self.back.len())],
        }
    }
}

/// The character chosen for a colour is a character of the gradient that
/// the direction picks, whatever the colour and the settings' contrast and
/// brightness: the place computed for it lies inside that gradient.
pub proof fn lemma_char_for_in_gradient(
    settings: ConverterSettings,
    rgb: (u8, u8, u8),
    direction: EdgeDirection,
)
    requires
        settings.wf(),
    ensures
        0 <= settings.adjusted_luminance(rgb) <= 254,
        0 <= gradient_index(
            settings.adjusted_luminance(rgb),
            settings.gradient_for(direction).len() as int,
        ) < settings.gradient_for(direction).len(),
        settings.gradient_for(direction).contains(settings.char_for(rgb, direction)),
{
    let adjusted = adjusted_pixel(rgb, settings.contrast, settings.brightness);
    lemma_adjusted_channel_is_byte(rgb.0 as int, settings.contrast, settings.brightness);
    lemma_adjusted_channel_is_byte(rgb.1 as int, settings.contrast, settings.brightness);
    lemma_adjusted_channel_is_byte(rgb.2 as int, settings.contrast, settings.brightness);
    lemma_luminance_bounds(adjusted.0, adjusted.1, adjusted.2);
    lemma_gradient_index_in_range(
        settings.adjusted_luminance(rgb),
        settings.gradient_for(direction).len() as int,
    );
}

/// A conversion that takes its edges from a map of the converted frame
/// itself, made at the converter's threshold, gives what a conversion with
/// the edges detected on the frame gives.
pub proof fn lemma_snapshot_of_same_frame(
    settings: ConverterSettings,
    frame: &ImageFrame,
    map: &EdgeMap,
    dest: &AsciiFrame,
    cx: int,
    cy: int,
)
    requires
        frame.wf(),
        dest.wf(),
        map.wf(),
        map.width() == frame.width(),
        map.height() == frame.height(),
        forall|x: int, y: int|
            0 <= x < frame.width() && 0 <= y < frame.height() ==> #[trigger] map.cell_at(x, y)
                == edge_cell(frame, x, y, settings.threshold),
        0 <= cx < dest.width(),
        0 <= cy < dest.height(),
    ensures
        converted_cell(settings, frame, EdgeSource::Snapshot(map), dest, cx, cy) == converted_cell(
            settings,
            frame,
            EdgeSource::Frame,
            dest,
            cx,
            cy,
        ),
{
    let sx = source_coordinate(cx, frame.width() as int, dest.width() as int);
    let sy = source_coordinate(cy, frame.height() as int, dest.height() as int);
    lemma_source_coordinate_in_range(cx, frame.width() as int, dest.width() as int);
    lemma_source_coordinate_in_range(cy, frame.height() as int, dest.height() as int);
    assert(map.cell_at(sx, sy) == edge_cell(frame, sx, sy, settings.threshold));
    lemma_edge_cell_respects_threshold(frame, sx, sy, settings.threshold);
}

/// A frame of one colour converts to a grid of one character: the one
/// that the intensity ramp holds for that colour.
pub proof fn lemma_uniform_frame_converts_uniformly(
    settings: ConverterSettings,
    frame: &ImageFrame,
    dest: &AsciiFrame,
    rgb: (u8, u8, u8),
    cx: int,
    cy: int,
)
    requires
        convertible(settings, frame, dest),
        forall|px: int, py: int|
            0 <= px < frame.width() && 0 <= py < frame.height() ==> #[trigger] frame.pixel_at(
                px,
                py,
            ) == Some(rgb),
        0 <= cx < dest.width(),
        0 <= cy < dest.height(),
    ensures
        converted_cell(settings, frame, EdgeSource::Frame, dest, cx, cy) == settings.char_for(
            rgb,
            EdgeDirection::NoEdge,
        ),
{
    let sx = source_coordinate(cx, frame.width() as int, dest.width() as int);
    let sy = source_coordinate(cy, frame.height() as int, dest.height() as int);
    lemma_source_coordinate_in_range(cx, frame.width() as int, dest.width() as int);
    lemma_source_coordinate_in_range(cy, frame.height() as int, dest.height() as int);
    assert(frame.pixel_at(sx, sy) == Some(rgb));
    lemma_uniform_frame_is_flat(frame, rgb, sx, sy, settings.threshold);
}

} // verus!
