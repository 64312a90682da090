//! Regions that may extend beyond the viewable area of the display. Image data that falls
//! outside the viewable area is silently dropped, so callers need not crop it themselves.

use vstd::prelude::*;

use crate::display::PixelCoord;
use crate::interface::{performed, DisplayInterface, Error};
use crate::region::{draw_plan, pack, Region};
use crate::stream::{Base, Clip, Cursor};

verus! {

/// `x` limited to `lo..=hi`.
pub open spec fn clipped(lo: int, x: int, hi: int) -> int {
    if x > hi {
        hi
    } else if x < lo {
        lo
    } else {
        x
    }
}

/// Clip a value between some low and high limit.
pub fn clip(lo: i16, x: i16, hi: i16) -> (r: i16)
    requires
        lo <= hi,
    ensures
        r == clipped(lo as int, x as int, hi as int),
{
    if x > hi {
        hi
    } else if x < lo {
        lo
    } else {
        x
    }
}

/// Whether `lo <= x < hi`.
pub fn in_range(x: i64, lo: i64, hi: i64) -> (r: bool)
    ensures
        r == (lo <= x < hi),
{
    x >= lo && x < hi
}

/// Whether byte `i` of a packed image stream for the logical rectangle `upper_left`..
/// `lower_right` falls within the viewable area: the first `viewable_cols` columns and the 128
/// rows of display RAM. Bytes are laid out row by row, two pixels per byte; bytes beyond the
/// rectangle are never viewable.
pub open spec fn byte_visible(
    upper_left: PixelCoord,
    lower_right: PixelCoord,
    viewable_cols: int,
    i: int,
) -> bool {
    let bytes_per_row = (lower_right.0 - upper_left.0) / 2;
    let row = upper_left.1 + i / bytes_per_row;
    let col = upper_left.0 + 2 * (i % bytes_per_row);
    &&& 0 <= i < (lower_right.1 - upper_left.1) * bytes_per_row
    &&& 0 <= row < 128
    &&& 0 <= col < viewable_cols
}

/// The bytes of `data` that fall within the viewable area, in order.
pub open spec fn visible_stream(
    upper_left: PixelCoord,
    lower_right: PixelCoord,
    viewable_cols: int,
    data: Seq<u8>,
) -> Seq<u8>
    decreases data.len(),
{
    if data.len() == 0 {
        Seq::empty()
    } else {
        let rest = visible_stream(upper_left, lower_right, viewable_cols, data.drop_last());
        if byte_visible(upper_left, lower_right, viewable_cols, data.len() - 1) {
            rest.push(data.last())
        } else {
            rest
        }
    }
}

/// A logical rectangle, ordered and with columns aligned to buffer columns.
pub open spec fn rect_ok(upper_left: PixelCoord, lower_right: PixelCoord) -> bool {
    &&& upper_left.0 < lower_right.0
    &&& upper_left.1 < lower_right.1
    &&& upper_left.0 % 4 == 0
    &&& lower_right.0 % 4 == 0
}

/// The logical rectangle of an overscanned region and the width of the viewable area.
struct Overscan {
    clip: Clip,
}

impl Overscan {
    #[verifier::type_invariant]
    spec fn inv(&self) -> bool {
        self.clip.wf()
    }
}

/// A handle to a rectangular region that may extend beyond the viewable area of the display;
/// what falls outside it is dropped. It borrows the display until it is dropped.
pub struct OverscannedRegion<'a, DI: DisplayInterface> {
    viewable_region: Option<Region<'a, DI>>,
    overscan: Overscan,
}

impl<'a, DI: DisplayInterface> OverscannedRegion<'a, DI> {
    /// The region over the viewable part of the rectangle, if it is not empty.
    pub closed spec fn viewable(&self) -> Option<Region<'a, DI>> {
        self.viewable_region
    }

    /// The logical upper left corner.
    pub closed spec fn upper_left(&self) -> PixelCoord {
        self.overscan.clip.upper_left
    }

    /// The logical lower right corner (exclusive).
    pub closed spec fn lower_right(&self) -> PixelCoord {
        self.overscan.clip.lower_right
    }

    /// The width of the viewable area in pixels.
    pub closed spec fn viewable_cols(&self) -> int {
        self.overscan.clip.viewable_cols as int
    }

    /// The bytes of a packed image stream for this region that are drawn.
    pub open spec fn visible(&self, data: Seq<u8>) -> Seq<u8> {
        visible_stream(self.upper_left(), self.lower_right(), self.viewable_cols(), data)
    }

    /// An overscanned region over the logical rectangle `upper_left`..`lower_right` of a display
    /// `viewable_pixel_cols` wide, drawing into `viewable_region` when the viewable part of the
    /// rectangle is not empty.
    pub(crate) fn new(
        viewable_region: Option<Region<'a, DI>>,
        upper_left: PixelCoord,
        lower_right: PixelCoord,
        viewable_pixel_cols: i16,
    ) -> (r: Self)
        requires
            rect_ok(upper_left, lower_right),
            0 <= viewable_pixel_cols,
        ensures
            r.viewable() == viewable_region,
            r.upper_left() == upper_left,
            r.lower_right() == lower_right,
            r.viewable_cols() == viewable_pixel_cols,
    {
        OverscannedRegion {
            viewable_region,
            overscan: Overscan {
                clip: Clip { upper_left, lower_right, viewable_cols: viewable_pixel_cols },
            },
        }
    }

    /// Draw packed image data for the whole logical rectangle, two pixels per byte, left to
    /// right and top to bottom. Only the bytes that fall within the viewable area are drawn (see
    /// `Region::draw_packed`); when none can, nothing is sent.
    pub fn draw_packed(&mut self, data: &[u8]) -> (r: Result<(), Error<DI::Error>>)
        ensures
            final(self).upper_left() == old(self).upper_left(),
            final(self).lower_right() == old(self).lower_right(),
            final(self).viewable_cols() == old(self).viewable_cols(),
            match old(self).viewable() {
                None => r is Ok && final(self).viewable() is None,
                Some(region) => final(self).viewable() matches Some(fin) && {
                    &&& performed(
                        region.sent(),
                        fin.sent(),
                        draw_plan(region.window(), old(self).visible(data@)),
                        r,
                    )
                    &&& fin.window() == region.window()
                    &&& *final(fin.iface()) == *final(region.iface())
                },
            },
    {
        proof {
            use_type_invariant(&self.overscan);
        }
        match &mut self.viewable_region {
            None => Ok(()),
            Some(region) => {
                let mut cursor = Cursor::new(Base::Packed(data), Some(self.overscan.clip));
                region.draw_stream(&mut cursor)
            },
        }
    }

    /// Draw unpacked image data for the whole logical rectangle, one pixel intensity (0-15) per
    /// byte: the pixels are packed two per byte and drawn as by `draw_packed`.
    pub fn draw(&mut self, pixels: &[u8]) -> (r: Result<(), Error<DI::Error>>)
        ensures
            final(self).upper_left() == old(self).upper_left(),
            final(self).lower_right() == old(self).lower_right(),
            final(self).viewable_cols() == old(self).viewable_cols(),
            match old(self).viewable() {
                None => r is Ok && final(self).viewable() is None,
                Some(region) => final(self).viewable() matches Some(fin) && {
                    &&& performed(
                        region.sent(),
                        fin.sent(),
                        draw_plan(region.window(), old(self).visible(pack(pixels@))),
                        r,
                    )
                    &&& fin.window() == region.window()
                    &&& *final(fin.iface()) == *final(region.iface())
                },
            },
    {
        proof {
            use_type_invariant(&self.overscan);
        }
        match &mut self.viewable_region {
            None => Ok(()),
            Some(region) => {
                let mut cursor = Cursor::new(Base::Pixels(pixels), Some(self.overscan.clip));
                region.draw_stream(&mut cursor)
            },
        }
    }
}

/// No byte of a rectangle that lies entirely outside the viewable area is drawn.
pub proof fn lemma_outside_nothing_visible(
    upper_left: PixelCoord,
    lower_right: PixelCoord,
    viewable_cols: int,
    data: Seq<u8>,
)
    requires
        rect_ok(upper_left, lower_right),
        lower_right.0 <= 0 || upper_left.0 >= viewable_cols || lower_right.1 <= 0 || upper_left.1
            >= 128,
    ensures
        visible_stream(upper_left, lower_right, viewable_cols, data) == Seq::<u8>::empty(),
    decreases data.len(),
{
    if data.len() > 0 {
        lemma_outside_nothing_visible(upper_left, lower_right, viewable_cols, data.drop_last());
        let i = data.len() - 1;
        let w = (lower_right.0 - upper_left.0) / 2;
        if 0 <= i < (lower_right.1 - upper_left.1) * w {
            assert(w >= 2);
            assert(i / w < lower_right.1 - upper_left.1) by (nonlinear_arith)
                requires
                    0 <= i < (lower_right.1 - upper_left.1) * w,
                    w >= 2,
            ;
            assert(0 <= i % w < w) by (nonlinear_arith)
                requires
                    w >= 2,
            ;
            assert(0 <= i / w) by (nonlinear_arith)
                requires
                    w >= 2,
                    i >= 0,
            ;
        }
        assert(!byte_visible(upper_left, lower_right, viewable_cols, i));
    }
}

/// Number of viewable bytes among the first `m` bytes of the stream of the logical rectangle.
pub open spec fn visible_count(
    upper_left: PixelCoord,
    lower_right: PixelCoord,
    viewable_cols: int,
    m: int,
) -> int
    decreases m,
{
    if m <= 0 {
        0
    } else {
        visible_count(upper_left, lower_right, viewable_cols, m - 1) + if byte_visible(
            upper_left,
            lower_right,
            viewable_cols,
            m - 1,
        ) {
            1int
        } else {
            0int
        }
    }
}

/// Number of the first `r` rows of the logical rectangle that lie within display RAM.
pub open spec fn row_count(upper_left: PixelCoord, r: int) -> int
    decreases r,
{
    if r <= 0 {
        0
    } else {
        row_count(upper_left, r - 1) + if 0 <= upper_left.1 + r - 1 < 128 {
            1int
        } else {
            0int
        }
    }
}

/// Number of the first `k` bytes of a row of the logical rectangle that lie within the viewable
/// columns.
pub open spec fn col_count(upper_left: PixelCoord, viewable_cols: int, k: int) -> int
    decreases k,
{
    if k <= 0 {
        0
    } else {
        col_count(upper_left, viewable_cols, k - 1) + if 0 <= upper_left.0 + 2 * (k - 1)
            < viewable_cols {
            1int
        } else {
            0int
        }
    }
}

pub(crate) proof fn lemma_visible_len_is_count(
    upper_left: PixelCoord,
    lower_right: PixelCoord,
    viewable_cols: int,
    data: Seq<u8>,
)
    ensures
        visible_stream(upper_left, lower_right, viewable_cols, data).len() == visible_count(
            upper_left,
            lower_right,
            viewable_cols,
            data.len() as int,
        ),
    decreases data.len(),
{
    if data.len() > 0 {
        lemma_visible_len_is_count(upper_left, lower_right, viewable_cols, data.drop_last());
    }
}

pub(crate) proof fn lemma_count_past_end(
    upper_left: PixelCoord,
    lower_right: PixelCoord,
    viewable_cols: int,
    m: int,
)
    requires
        rect_ok(upper_left, lower_right),
        m >= (lower_right.1 - upper_left.1) * ((lower_right.0 - upper_left.0) / 2),
    ensures
        visible_count(upper_left, lower_right, viewable_cols, m) == visible_count(
            upper_left,
            lower_right,
            viewable_cols,
            (lower_right.1 - upper_left.1) * ((lower_right.0 - upper_left.0) / 2),
        ),
    decreases m,
{
    let n = (lower_right.1 - upper_left.1) * ((lower_right.0 - upper_left.0) / 2);
    if m > n {
        lemma_count_past_end(upper_left, lower_right, viewable_cols, m - 1);
    }
}

/// Within logical row `r`, the first `k` bytes add the viewable ones of them when the row is
/// within display RAM.
proof fn lemma_count_in_row(
    upper_left: PixelCoord,
    lower_right: PixelCoord,
    viewable_cols: int,
    r: int,
    k: int,
)
    requires
        rect_ok(upper_left, lower_right),
        0 <= r < lower_right.1 - upper_left.1,
        0 <= k <= (lower_right.0 - upper_left.0) / 2,
    ensures
        visible_count(
            upper_left,
            lower_right,
            viewable_cols,
            r * ((lower_right.0 - upper_left.0) / 2) + k,
        ) == visible_count(
            upper_left,
            lower_right,
            viewable_cols,
            r * ((lower_right.0 - upper_left.0) / 2),
        ) + if 0 <= upper_left.1 + r < 128 {
            col_count(upper_left, viewable_cols, k)
        } else {
            0
        },
    decreases k,
{
    let w = (lower_right.0 - upper_left.0) / 2;
    let h = lower_right.1 - upper_left.1;
    if k > 0 {
        lemma_count_in_row(upper_left, lower_right, viewable_cols, r, k - 1);
        let i = r * w + k - 1;
        vstd::arithmetic::div_mod::lemma_fundamental_div_mod_converse(i, w, r, k - 1);
        assert(r * w + (k - 1) < h * w) by (nonlinear_arith)
            requires
                0 <= r < h,
                0 <= k - 1 < w,
        ;
        assert(0 <= r * w) by (nonlinear_arith)
            requires
                0 <= r,
                0 <= w,
        ;
    }
}

/// The first `r` logical rows hold as many viewable bytes as viewable rows times viewable bytes
/// per row.
pub(crate) proof fn lemma_count_rows(
    upper_left: PixelCoord,
    lower_right: PixelCoord,
    viewable_cols: int,
    r: int,
)
    requires
        rect_ok(upper_left, lower_right),
        0 <= r <= lower_right.1 - upper_left.1,
    ensures
        visible_count(
            upper_left,
            lower_right,
            viewable_cols,
            r * ((lower_right.0 - upper_left.0) / 2),
        ) == row_count(upper_left, r) * col_count(
            upper_left,
            viewable_cols,
            (lower_right.0 - upper_left.0) / 2,
        ),
    decreases r,
{
    let w = (lower_right.0 - upper_left.0) / 2;
    if r == 0 {
        assert(0 * w == 0);
    } else {
        lemma_count_rows(upper_left, lower_right, viewable_cols, r - 1);
        lemma_count_in_row(upper_left, lower_right, viewable_cols, r - 1, w);
        assert((r - 1) * w + w == r * w) by (nonlinear_arith);
        let c = col_count(upper_left, viewable_cols, w);
        assert(row_count(upper_left, r - 1) * c + c == (row_count(upper_left, r - 1) + 1) * c)
            by (nonlinear_arith);
    }
}

pub(crate) proof fn lemma_row_count_closed(upper_left: PixelCoord, r: int)
    requires
        r >= 0,
    ensures
        row_count(upper_left, r) == clipped(0, upper_left.1 + r, 128) - clipped(
            0,
            upper_left.1 as int,
            128,
        ),
    decreases r,
{
    if r > 0 {
        lemma_row_count_closed(upper_left, r - 1);
    }
}

pub(crate) proof fn lemma_col_count_closed(upper_left: PixelCoord, viewable_cols: int, k: int)
    requires
        k >= 0,
        upper_left.0 % 2 == 0,
        viewable_cols >= 0,
        viewable_cols % 2 == 0,
    ensures
        2 * col_count(upper_left, viewable_cols, k) == clipped(
            0,
            upper_left.0 + 2 * k,
            viewable_cols,
        ) - clipped(0, upper_left.0 as int, viewable_cols),
    decreases k,
{
    if k > 0 {
        lemma_col_count_closed(upper_left, viewable_cols, k - 1);
        let x = upper_left.0 + 2 * (k - 1);
        assert(x % 2 == 0);
        if 0 <= x < viewable_cols {
            assert(x + 2 <= viewable_cols);
        } else if x < 0 {
            assert(x + 2 <= 0);
        }
    }
}

} // verus!
