//! A captured frame as a buffer of RGBA pixels, and the marker drawn on it.

use crate::pixel::{blend, blend_over, Rgba};
use vstd::arithmetic::div_mod::{
    lemma_fundamental_div_mod_converse_div, lemma_fundamental_div_mod_converse_mod,
};
use vstd::prelude::*;

verus! {

/// What a frame is: its dimensions and its bytes, four per pixel, rows from
/// the top, pixels from the left.
pub struct FrameView {
    pub width: nat,
    pub height: nat,
    pub bytes: Seq<u8>,
}

/// Where the four bytes of the pixel at column `x` of row `y` begin.
pub open spec fn pixel_offset(width: nat, x: int, y: int) -> int {
    4 * (y * width + x)
}

impl FrameView {
    /// The bytes cover the frame exactly.
    pub open spec fn well_formed(self) -> bool {
        self.bytes.len() == 4 * (self.width * self.height)
    }

    pub open spec fn in_bounds(self, x: int, y: int) -> bool {
        0 <= x < self.width && 0 <= y < self.height
    }

    /// The pixel at column `x` of row `y`.
    pub open spec fn pixel(self, x: int, y: int) -> Rgba {
        let at = pixel_offset(self.width, x, y);
        Rgba {
            r: self.bytes[at],
            g: self.bytes[at + 1],
            b: self.bytes[at + 2],
            a: self.bytes[at + 3],
        }
    }

    /// The frame with the pixel at column `x` of row `y` set to `color`.
    pub open spec fn with_pixel(self, x: int, y: int, color: Rgba) -> FrameView {
        let at = pixel_offset(self.width, x, y);
        FrameView {
            width: self.width,
            height: self.height,
            bytes: self.bytes.update(at, color.r).update(at + 1, color.g).update(
                at + 2,
                color.b,
            ).update(at + 3, color.a),
        }
    }
}

/// The translucent disc drawn at the place of a click.
#[derive(Clone, Copy, Debug, PartialEq, Eq, Structural)]
pub struct Marker {
    pub diameter: u32,
    pub color: Rgba,
}

/// The diameter of the marker unless another is asked for.
pub const DEFAULT_MARKER_DIAMETER: u32 = 400;

impl Marker {
    /// Whether the marker, centred at (`cx`, `cy`), covers the pixel at
    /// (`x`, `y`): the pixel is less than half the diameter away from the
    /// centre.
    pub open spec fn covers(self, cx: int, cy: int, x: int, y: int) -> bool {
        4 * ((x - cx) * (x - cx) + (y - cy) * (y - cy)) < self.diameter * self.diameter
    }

    /// What the marker, centred at (`cx`, `cy`), makes of the pixel `before` at
    /// (`x`, `y`): its colour blended over the pixel where it covers it, and
    /// the pixel itself elsewhere.
    pub open spec fn applied(self, before: Rgba, cx: int, cy: int, x: int, y: int) -> Rgba {
        if self.covers(cx, cy, x, y) {
            blend_over(before, self.color)
        } else {
            before
        }
    }

    /// Whether the pixel at (`x`, `y`) is no further from (`cx`, `cy`) along
    /// either axis than half the diameter, rounded down. The marker covers no
    /// other pixel.
    pub open spec fn near(self, cx: int, cy: int, x: int, y: int) -> bool {
        &&& -(self.diameter / 2) <= x - cx <= self.diameter / 2
        &&& -(self.diameter / 2) <= y - cy <= self.diameter / 2
    }

    /// Whether the marker covers a pixel near its centre.
    fn covers_near(self, cx: i64, cy: i64, x: u32, y: u32) -> (covered: bool)
        requires
            self.near(cx as int, cy as int, x as int, y as int),
        ensures
            covered == self.covers(cx as int, cy as int, x as int, y as int),
    {
        let dx: i128 = x as i128 - cx as i128;
        let dy: i128 = y as i128 - cy as i128;
        proof {
            assert(0 <= dx * dx <= 0x8000_0000 * 0x8000_0000) by (nonlinear_arith)
                requires
                    -0x8000_0000 <= dx <= 0x8000_0000,
            ;
            assert(0 <= dy * dy <= 0x8000_0000 * 0x8000_0000) by (nonlinear_arith)
                requires
                    -0x8000_0000 <= dy <= 0x8000_0000,
            ;
            assert(0 <= self.diameter * self.diameter <= 0xffff_ffff * 0xffff_ffff)
                by (nonlinear_arith)
                requires
                    0 <= self.diameter <= 0xffff_ffff,
            ;
        }
        4 * (dx * dx + dy * dy) < self.diameter as i128 * self.diameter as i128
    }

    /// Whether the marker, centred at (`cx`, `cy`), covers the pixel at
    /// (`x`, `y`).
    pub fn covers_pixel(self, cx: i64, cy: i64, x: u32, y: u32) -> (covered: bool)
        ensures
            covered == self.covers(cx as int, cy as int, x as int, y as int),
    {
        let reach: i128 = (self.diameter / 2) as i128;
        let dx: i128 = x as i128 - cx as i128;
        let dy: i128 = y as i128 - cy as i128;
        if dx < -reach || dx > reach || dy < -reach || dy > reach {
            proof {
                lemma_far_is_uncovered(self, cx as int, cy as int, x as int, y as int);
            }
            false
        } else {
            self.covers_near(cx, cy, x, y)
        }
    }

    /// The marker of 400 units in faint yellow.
    pub open spec fn spec_standard() -> Marker {
        Marker { diameter: DEFAULT_MARKER_DIAMETER, color: Rgba { r: 255, g: 255, b: 0, a: 40 } }
    }

    /// The marker of 400 units in faint yellow.
    #[verifier::when_used_as_spec(spec_standard)]
    pub fn standard() -> (marker: Marker)
        ensures
            marker == Self::spec_standard(),
    {
        Marker { diameter: DEFAULT_MARKER_DIAMETER, color: Rgba { r: 255, g: 255, b: 0, a: 40 } }
    }
}

/// `frame` after a marker was drawn on `before`: the same dimensions, and each
/// pixel what the marker makes of it.
pub open spec fn is_annotated(
    frame: FrameView,
    before: FrameView,
    marker: Marker,
    cx: int,
    cy: int,
) -> bool {
    &&& frame.well_formed()
    &&& frame.width == before.width
    &&& frame.height == before.height
    &&& forall|x: int, y: int|
        before.in_bounds(x, y) ==> #[trigger] frame.pixel(x, y) == marker.applied(
            before.pixel(x, y),
            cx,
            cy,
            x,
            y,
        )
}

/// The byte at `i` of a frame after a marker was drawn on `before`: byte `i`
/// belongs to the pixel at place `i / 4`, counted along the rows, and is the
/// channel `i % 4` of what the marker makes of that pixel.
pub open spec fn annotated_byte(before: FrameView, marker: Marker, cx: int, cy: int, i: int) -> u8 {
    let place = i / 4;
    let x = place % (before.width as int);
    let y = place / (before.width as int);
    marker.applied(before.pixel(x, y), cx, cy, x, y).channel(i % 4)
}

/// The frame `before` with `marker` drawn on it, the marker's centre at
/// column `cx` of row `cy`.
pub open spec fn annotated(before: FrameView, marker: Marker, cx: int, cy: int) -> FrameView {
    FrameView {
        width: before.width,
        height: before.height,
        bytes: Seq::new(before.bytes.len(), |i: int| annotated_byte(before, marker, cx, cy, i)),
    }
}

/// The pixels of a frame lie inside its bytes.
pub proof fn lemma_pixel_in_frame(width: nat, height: nat, x: int, y: int)
    requires
        0 <= x < width,
        0 <= y < height,
    ensures
        0 <= y * width + x < width * height,
        0 <= pixel_offset(width, x, y),
        pixel_offset(width, x, y) + 4 <= 4 * (width * height),
{
    assert(0 <= y * width && y * width + width <= width * height) by (nonlinear_arith)
        requires
            0 <= y < height,
            0 <= width,
    ;
}

/// Two places of a frame share no byte.
pub proof fn lemma_pixels_disjoint(width: nat, x1: int, y1: int, x2: int, y2: int)
    requires
        0 <= x1 < width,
        0 <= x2 < width,
        x1 != x2 || y1 != y2,
    ensures
        pixel_offset(width, x1, y1) + 4 <= pixel_offset(width, x2, y2) || pixel_offset(
            width,
            x2,
            y2,
        ) + 4 <= pixel_offset(width, x1, y1),
{
    if y1 < y2 {
        assert(y1 * width + width <= y2 * width) by (nonlinear_arith)
            requires
                y1 < y2,
                0 <= width,
        ;
    } else if y2 < y1 {
        assert(y2 * width + width <= y1 * width) by (nonlinear_arith)
            requires
                y2 < y1,
                0 <= width,
        ;
    }
}

/// Every byte of a well-formed frame belongs to one of its pixels.
pub proof fn lemma_byte_of_pixel(width: nat, height: nat, i: int) -> (place: (int, int, int))
    requires
        0 <= i < 4 * (width * height),
    ensures
        0 <= place.0 < width,
        0 <= place.1 < height,
        0 <= place.2 < 4,
        i == pixel_offset(width, place.0, place.1) + place.2,
{
    let k = i / 4;
    let c = i % 4;
    assert(width > 0) by (nonlinear_arith)
        requires
            0 < 4 * (width * height),
            0 <= width,
    ;
    let w = width as int;
    let y = k / w;
    let x = k % w;
    assert(k == w * y + x && 0 <= x < w) by (nonlinear_arith)
        requires
            w > 0,
            y == k / w,
            x == k % w,
    ;
    assert(w * y == y * w) by (nonlinear_arith);
    assert(0 <= y < height) by (nonlinear_arith)
        requires
            k == w * y + x,
            0 <= x < w,
            0 <= k < w * height,
    ;
    (x, y, c)
}

/// Two well-formed frames of the same dimensions with the same pixels have the
/// same bytes: the pixels of a frame say all there is to say of it.
pub proof fn lemma_pixels_determine_frame(a: FrameView, b: FrameView)
    requires
        a.well_formed(),
        b.well_formed(),
        a.width == b.width,
        a.height == b.height,
        forall|x: int, y: int| a.in_bounds(x, y) ==> #[trigger] a.pixel(x, y) == b.pixel(x, y),
    ensures
        a == b,
{
    assert forall|i: int| 0 <= i < a.bytes.len() implies a.bytes[i] == b.bytes[i] by {
        let place = lemma_byte_of_pixel(a.width, a.height, i);
        assert(a.pixel(place.0, place.1) == b.pixel(place.0, place.1));
    }
    assert(a.bytes =~= b.bytes);
}

/// The bytes of a pixel lead back to its place.
proof fn lemma_place_of_byte(width: nat, x: int, y: int, c: int)
    requires
        0 <= x < width,
        0 <= c < 4,
    ensures
        (pixel_offset(width, x, y) + c) / 4 == y * width + x,
        (pixel_offset(width, x, y) + c) % 4 == c,
        (y * width + x) % (width as int) == x,
        (y * width + x) / (width as int) == y,
{
    let place = y * width + x;
    lemma_fundamental_div_mod_converse_div(place * 4 + c, 4, place, c);
    lemma_fundamental_div_mod_converse_mod(place * 4 + c, 4, place, c);
    lemma_fundamental_div_mod_converse_div(place, width as int, y, x);
    lemma_fundamental_div_mod_converse_mod(place, width as int, y, x);
}

/// Drawing a marker changes the pixels that it covers, by its colour, and no
/// other: within the frame, every pixel that the marker covers is the
/// marker's colour blended over the pixel as it was, and every other pixel is
/// as it was.
pub proof fn lemma_annotated(before: FrameView, marker: Marker, cx: int, cy: int)
    requires
        before.well_formed(),
    ensures
        is_annotated(annotated(before, marker, cx, cy), before, marker, cx, cy),
        forall|x: int, y: int|
            before.in_bounds(x, y) && marker.covers(cx, cy, x, y) ==> #[trigger] annotated(
                before,
                marker,
                cx,
                cy,
            ).pixel(x, y) == blend_over(before.pixel(x, y), marker.color),
        forall|x: int, y: int|
            before.in_bounds(x, y) && !marker.covers(cx, cy, x, y) ==> #[trigger] annotated(
                before,
                marker,
                cx,
                cy,
            ).pixel(x, y) == before.pixel(x, y),
{
    let after = annotated(before, marker, cx, cy);
    assert forall|x: int, y: int| before.in_bounds(x, y) implies #[trigger] after.pixel(x, y)
        == marker.applied(before.pixel(x, y), cx, cy, x, y) by {
        lemma_pixel_in_frame(before.width, before.height, x, y);
        lemma_place_of_byte(before.width, x, y, 0);
        lemma_place_of_byte(before.width, x, y, 1);
        lemma_place_of_byte(before.width, x, y, 2);
        lemma_place_of_byte(before.width, x, y, 3);
    }
}

/// There is one way to draw a marker on a frame.
pub proof fn lemma_annotated_unique(
    frame: FrameView,
    before: FrameView,
    marker: Marker,
    cx: int,
    cy: int,
)
    requires
        before.well_formed(),
        is_annotated(frame, before, marker, cx, cy),
    ensures
        frame == annotated(before, marker, cx, cy),
{
    lemma_annotated(before, marker, cx, cy);
    lemma_pixels_determine_frame(frame, annotated(before, marker, cx, cy));
}

/// A marker covers no pixel that is further than half its diameter from the
/// centre along one axis.
pub proof fn lemma_far_is_uncovered(marker: Marker, cx: int, cy: int, x: int, y: int)
    requires
        x - cx > marker.diameter / 2 || cx - x > marker.diameter / 2 || y - cy > marker.diameter
            / 2 || cy - y > marker.diameter / 2,
    ensures
        !marker.covers(cx, cy, x, y),
{
    let d = marker.diameter as int;
    let half = d / 2;
    let dx = x - cx;
    let dy = y - cy;
    assert(dx * dx >= 0 && dy * dy >= 0) by (nonlinear_arith);
    if dx > half || -dx > half {
        assert(4 * (dx * dx) >= d * d) by (nonlinear_arith)
            requires
                dx > half || -dx > half,
                2 * half + 1 >= d,
                d >= 0,
                half >= 0,
        ;
    } else {
        assert(4 * (dy * dy) >= d * d) by (nonlinear_arith)
            requires
                dy > half || -dy > half,
                2 * half + 1 >= d,
                d >= 0,
                half >= 0,
        ;
    }
}

/// Setting one pixel of a frame sets that pixel and no other.
pub proof fn lemma_with_pixel(frame: FrameView, x: int, y: int, color: Rgba)
    requires
        frame.well_formed(),
        frame.in_bounds(x, y),
    ensures
        frame.with_pixel(x, y, color).well_formed(),
        frame.with_pixel(x, y, color).pixel(x, y) == color,
        forall|x2: int, y2: int|
            frame.in_bounds(x2, y2) && (x2 != x || y2 != y) ==> #[trigger] frame.with_pixel(
                x,
                y,
                color,
            ).pixel(x2, y2) == frame.pixel(x2, y2),
{
    lemma_pixel_in_frame(frame.width, frame.height, x, y);
    assert forall|x2: int, y2: int|
        frame.in_bounds(x2, y2) && (x2 != x || y2 != y) implies #[trigger] frame.with_pixel(
        x,
        y,
        color,
    ).pixel(x2, y2) == frame.pixel(x2, y2) by {
        lemma_pixel_in_frame(frame.width, frame.height, x2, y2);
        lemma_pixels_disjoint(frame.width, x, y, x2, y2);
    }
}

/// `v` brought into the range from 0 to `limit`.
fn clamp_to(v: i128, limit: u32) -> (c: u32)
    ensures
        c == if v < 0 {
            0
        } else if v > limit {
            limit as int
        } else {
            v as int
        },
{
    if v < 0 {
        0
    } else if v > limit as i128 {
        limit
    } else {
        v as u32
    }
}

/// A frame of RGBA pixels, eight bits a channel.
pub struct PixelBuffer {
    width: u32,
    height: u32,
    data: Vec<u8>,
}

impl View for PixelBuffer {
    type V = FrameView;

    closed spec fn view(&self) -> FrameView {
        FrameView { width: self.width as nat, height: self.height as nat, bytes: self.data@ }
    }
}

impl PixelBuffer {
    /// The buffer holds four bytes for each pixel of the frame and no more.
    pub open spec fn wf(&self) -> bool {
        self@.well_formed()
    }

    /// Takes `data` as the pixels of a frame of `width` by `height`, rows from
    /// the top. There is no frame where the length of `data` is not four times
    /// the number of pixels.
    pub fn from_raw(width: u32, height: u32, data: Vec<u8>) -> (frame: Option<PixelBuffer>)
        ensures
            frame is Some <==> data@.len() == 4 * (width * height),
            frame matches Some(f) ==> f.wf() && f@ == (FrameView {
                width: width as nat,
                height: height as nat,
                bytes: data@,
            }),
    {
        proof {
            assert(0 <= width * height <= 0xffff_ffff * 0xffff_ffff) by (nonlinear_arith)
                requires
                    0 <= width <= 0xffff_ffff,
                    0 <= height <= 0xffff_ffff,
            ;
        }
        let wanted: u128 = 4 * (width as u128 * height as u128);
        if data.len() as u128 == wanted {
            Some(PixelBuffer { width, height, data })
        } else {
            None
        }
    }

    pub fn width(&self) -> (w: u32)
        ensures
            w == self@.width,
    {
        self.width
    }

    pub fn height(&self) -> (h: u32)
        ensures
            h == self@.height,
    {
        self.height
    }

    /// The bytes of the frame, four per pixel.
    pub fn as_bytes(&self) -> (bytes: &[u8])
        ensures
            bytes@ == self@.bytes,
    {
        self.data.as_slice()
    }

    /// Gives the bytes of the frame up.
    pub fn into_bytes(self) -> (bytes: Vec<u8>)
        ensures
            bytes@ == self@.bytes,
    {
        self.data
    }

    /// Whether two frames have the same dimensions and the same pixels.
    pub fn same_as(&self, other: &PixelBuffer) -> (same: bool)
        ensures
            same == (self@ == other@),
    {
        if self.width != other.width || self.height != other.height || self.data.len()
            != other.data.len() {
            return false;
        }
        let mut i: usize = 0;
        while i < self.data.len()
            invariant
                i <= self.data@.len(),
                self.data@.len() == other.data@.len(),
                forall|j: int| 0 <= j < i ==> self.data@[j] == other.data@[j],
            decreases self.data@.len() - i,
        {
            if self.data[i] != other.data[i] {
                return false;
            }
            i += 1;
        }
        assert(self.data@ =~= other.data@);
        true
    }

    /// Where the pixel at (`x`, `y`) begins in the buffer.
    fn offset_of(&self, x: u32, y: u32) -> (at: usize)
        requires
            self.wf(),
            self@.in_bounds(x as int, y as int),
        ensures
            at == pixel_offset(self@.width, x as int, y as int),
            at + 4 <= self@.bytes.len(),
    {
        proof {
            lemma_pixel_in_frame(self@.width, self@.height, x as int, y as int);
            assert(self.data@.len() == self.data.len());
            assert(0 <= y * self.width) by (nonlinear_arith);
        }
        4 * (y as usize * self.width as usize + x as usize)
    }

    /// The pixel at column `x` of row `y`; none outside the frame.
    pub fn get_pixel(&self, x: u32, y: u32) -> (pixel: Option<Rgba>)
        requires
            self.wf(),
        ensures
            pixel == if self@.in_bounds(x as int, y as int) {
                Some(self@.pixel(x as int, y as int))
            } else {
                None
            },
    {
        if x < self.width && y < self.height {
            let at = self.offset_of(x, y);
            Some(
                Rgba {
                    r: self.data[at],
                    g: self.data[at + 1],
                    b: self.data[at + 2],
                    a: self.data[at + 3],
                },
            )
        } else {
            None
        }
    }

    /// Sets the pixel at column `x` of row `y`. Outside the frame nothing is
    /// set, and the answer is `false`.
    pub fn put_pixel(&mut self, x: u32, y: u32, color: Rgba) -> (done: bool)
        requires
            old(self).wf(),
        ensures
            final(self).wf(),
            done == old(self)@.in_bounds(x as int, y as int),
            final(self)@ == if done {
                old(self)@.with_pixel(x as int, y as int, color)
            } else {
                old(self)@
            },
    {
        if x < self.width && y < self.height {
            let at = self.offset_of(x, y);
            self.data.set(at, color.r);
            self.data.set(at + 1, color.g);
            self.data.set(at + 2, color.b);
            self.data.set(at + 3, color.a);
            proof {
                lemma_with_pixel(old(self)@, x as int, y as int, color);
            }
            true
        } else {
            false
        }
    }

    /// Blends `color` over the pixel at column `x` of row `y`. Outside the
    /// frame nothing changes, and the answer is `false`.
    pub fn blend_pixel(&mut self, x: u32, y: u32, color: Rgba) -> (done: bool)
        requires
            old(self).wf(),
        ensures
            final(self).wf(),
            done == old(self)@.in_bounds(x as int, y as int),
            final(self)@ == if done {
                old(self)@.with_pixel(
                    x as int,
                    y as int,
                    blend_over(old(self)@.pixel(x as int, y as int), color),
                )
            } else {
                old(self)@
            },
    {
        match self.get_pixel(x, y) {
            Some(under) => self.put_pixel(x, y, blend(under, color)),
            None => false,
        }
    }

    /// The part of the frame that `marker`, centred at (`cx`, `cy`), can
    /// reach.
    fn window(&self, cx: i64, cy: i64, marker: Marker) -> (window: Window)
        requires
            self.wf(),
        ensures
            window.within(self@, marker, cx as int, cy as int),
    {
        let reach: i128 = (marker.diameter / 2) as i128;
        let window = Window {
            x_lo: clamp_to(cx as i128 - reach, self.width),
            x_hi: clamp_to(cx as i128 + reach + 1, self.width),
            y_lo: clamp_to(cy as i128 - reach, self.height),
            y_hi: clamp_to(cy as i128 + reach + 1, self.height),
        };
        proof {
            assert forall|x: int, y: int|
                self@.in_bounds(x, y) && !window.holds(x, y) implies !marker.covers(
                cx as int,
                cy as int,
                x,
                y,
            ) by {
                lemma_far_is_uncovered(marker, cx as int, cy as int, x, y);
            }
        }
        window
    }

    /// Draws `marker` with its centre at column `cx` of row `cy`: its colour
    /// is blended over every pixel of the frame that it covers, and every
    /// other pixel stays as it is. The centre may lie outside the frame; what
    /// of the marker falls outside is not drawn.
    pub fn annotate(&mut self, cx: i64, cy: i64, marker: Marker)
        requires
            old(self).wf(),
        ensures
            final(self).wf(),
            final(self)@ == annotated(old(self)@, marker, cx as int, cy as int),
            is_annotated(final(self)@, old(self)@, marker, cx as int, cy as int),
    {
        let ghost before = self@;
        let window = self.window(cx, cy, marker);
        let mut y: u32 = window.y_lo;
        while y < window.y_hi
            invariant
                self.wf(),
                window.within(before, marker, cx as int, cy as int),
                window.y_lo <= y <= window.y_hi,
                window.drawn_before(
                    self@,
                    before,
                    marker,
                    cx as int,
                    cy as int,
                    window.x_lo as int,
                    y as int,
                ),
            decreases window.y_hi - y,
        {
            let mut x: u32 = window.x_lo;
            while x < window.x_hi
                invariant
                    self.wf(),
                    window.within(before, marker, cx as int, cy as int),
                    window.y_lo <= y < window.y_hi,
                    window.x_lo <= x <= window.x_hi,
                    window.drawn_before(
                        self@,
                        before,
                        marker,
                        cx as int,
                        cy as int,
                        x as int,
                        y as int,
                    ),
                decreases window.x_hi - x,
            {
                let ghost mid = self@;
                assert(window.holds(x as int, y as int));
                if marker.covers_near(cx, cy, x, y) {
                    self.blend_pixel(x, y, marker.color);
                    proof {
                        lemma_with_pixel(
                            mid,
                            x as int,
                            y as int,
                            blend_over(mid.pixel(x as int, y as int), marker.color),
                        );
                    }
                }
                assert forall|px: int, py: int|
                    before.in_bounds(px, py) implies #[trigger] self@.pixel(px, py)
                    == window.drawn_pixel(
                    before,
                    marker,
                    cx as int,
                    cy as int,
                    x + 1,
                    y as int,
                    px,
                    py,
                ) by {
                    assert(mid.pixel(px, py) == window.drawn_pixel(
                        before,
                        marker,
                        cx as int,
                        cy as int,
                        x as int,
                        y as int,
                        px,
                        py,
                    ));
                }
                x += 1;
            }
            y += 1;
        }
        proof {
            assert forall|px: int, py: int|
                before.in_bounds(px, py) implies #[trigger] self@.pixel(px, py) == marker.applied(
                before.pixel(px, py),
                cx as int,
                cy as int,
                px,
                py,
            ) by {
                assert(self@.pixel(px, py) == window.drawn_pixel(
                    before,
                    marker,
                    cx as int,
                    cy as int,
                    window.x_lo as int,
                    y as int,
                    px,
                    py,
                ));
            }
            lemma_annotated_unique(self@, before, marker, cx as int, cy as int);
        }
    }
}

/// The part of a frame that a marker can reach: the columns from `x_lo` up to
/// `x_hi` of the rows from `y_lo` up to `y_hi`. The marker is drawn by a walk
/// over this window, row by row.
struct Window {
    x_lo: u32,
    x_hi: u32,
    y_lo: u32,
    y_hi: u32,
}

impl Window {
    spec fn holds(self, x: int, y: int) -> bool {
        self.x_lo <= x < self.x_hi && self.y_lo <= y < self.y_hi
    }

    /// The window lies in the frame, no pixel of it is further from the
    /// marker's centre than the marker reaches along an axis, and the marker
    /// covers no pixel of the frame outside it.
    spec fn within(self, frame: FrameView, marker: Marker, cx: int, cy: int) -> bool {
        &&& frame.well_formed()
        &&& self.x_lo <= self.x_hi <= frame.width
        &&& self.y_lo <= self.y_hi <= frame.height
        &&& forall|x: int, y: int| #[trigger]
            self.holds(x, y) ==> marker.near(cx, cy, x, y)
        &&& forall|x: int, y: int|
            frame.in_bounds(x, y) && !self.holds(x, y) ==> !#[trigger] marker.covers(cx, cy, x, y)
    }

    /// Whether the walk has passed the pixel at (`px`, `py`) when it stands
    /// at column `x` of row `y`.
    spec fn passed(self, x: int, y: int, px: int, py: int) -> bool {
        self.holds(px, py) && (py < y || (py == y && px < x))
    }

    /// The pixel at (`px`, `py`) when the walk stands at column `x` of row
    /// `y`: drawn if the walk has passed it, and as it was if not.
    spec fn drawn_pixel(
        self,
        before: FrameView,
        marker: Marker,
        cx: int,
        cy: int,
        x: int,
        y: int,
        px: int,
        py: int,
    ) -> Rgba {
        if self.passed(x, y, px, py) {
            marker.applied(before.pixel(px, py), cx, cy, px, py)
        } else {
            before.pixel(px, py)
        }
    }

    /// `frame` is `before` with the marker drawn on the pixels that the walk
    /// has passed when it stands at column `x` of row `y`.
    spec fn drawn_before(
        self,
        frame: FrameView,
        before: FrameView,
        marker: Marker,
        cx: int,
        cy: int,
        x: int,
        y: int,
    ) -> bool {
        &&& frame.width == before.width
        &&& frame.height == before.height
        &&& forall|px: int, py: int|
            before.in_bounds(px, py) ==> #[trigger] frame.pixel(px, py) == self.drawn_pixel(
                before,
                marker,
                cx,
                cy,
                x,
                y,
                px,
                py,
            )
    }
}

} // verus!
