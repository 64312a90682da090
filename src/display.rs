//! The display driver: owns the bus, holds the display geometry, initializes the controller and
//! hands out regions to draw into.

use vstd::prelude::*;

use crate::command::{
    commands_plan, send_commands, ColumnRemap, Command, DisplayMode, IncrementAxis, NibbleRemap,
};
use crate::config::{Config, PersistentConfig};
use crate::interface::{performed, DisplayInterface, Error, Transfer};
use crate::overscanned_region::{
    clip, clipped, col_count, lemma_col_count_closed, lemma_count_past_end, lemma_count_rows,
    lemma_outside_nothing_visible, lemma_row_count_closed, lemma_visible_len_is_count, rect_ok,
    row_count, visible_stream, OverscannedRegion,
};
use crate::region::{Region, Window};

verus! {

/// A pixel coordinate pair: column, then row.
#[derive(Clone, Copy, Debug, PartialEq, Eq, Structural)]
pub struct PixelCoord(pub i16, pub i16);

/// Whether a display of `size` pixels, whose pixel (0, 0) sits at column and COM line `offset`
/// of the controller, fits the controller: within 480 columns and 128 rows, with the columns
/// aligned to buffer columns of four pixels.
pub open spec fn valid_geometry(size: PixelCoord, offset: PixelCoord) -> bool {
    &&& 0 <= size.0 && 0 <= size.1 && 0 <= offset.0 && 0 <= offset.1
    &&& size.0 + offset.0 <= 480
    &&& size.1 + offset.1 <= 128
    &&& size.0 % 4 == 0
    &&& offset.0 % 4 == 0
}

/// The commands of initialization: sleep and blank the display, send the configuration, set up
/// the rows and the remapping, then wake the display with the image shown.
pub open spec fn init_commands(size: PixelCoord, offset: PixelCoord, config: Config) -> Seq<
    Command,
> {
    seq![Command::SetSleepMode(true), Command::SetDisplayMode(DisplayMode::BlankDark)]
        + config.commands() + seq![
        Command::SetMuxRatio(size.1 as u8),
        Command::SetDisplayOffset(offset.1 as u8),
        Command::SetStartLine(0),
        config.persistent().remapping(
            IncrementAxis::Horizontal,
            ColumnRemap::Forward,
            NibbleRemap::Forward,
        ),
        Command::SetSleepMode(false),
        Command::SetDisplayMode(DisplayMode::Normal),
    ]
}

/// Whether `upper_left`..`lower_right` (exclusive) is a region that can be drawn into on a
/// display `size` pixels wide: ordered, columns aligned to buffer columns, columns within the
/// display and rows within the 128 rows of display RAM (rows outside the display can be panned
/// into view).
pub open spec fn region_allowed(size: PixelCoord, upper_left: PixelCoord, lower_right: PixelCoord) -> bool {
    &&& 0 <= upper_left.0 < lower_right.0 <= size.0
    &&& 0 <= upper_left.1 < lower_right.1 <= 128
    &&& upper_left.0 % 4 == 0
    &&& lower_right.0 % 4 == 0
}

/// The window of display RAM under the pixel rectangle `upper_left`..`lower_right` of a display
/// whose column 0 is controller column `col_offset`.
pub open spec fn window_of(upper_left: PixelCoord, lower_right: PixelCoord, col_offset: i16) -> Window {
    Window {
        top: upper_left.1 as u8,
        rows: (lower_right.1 - upper_left.1) as u8,
        buf_left: ((upper_left.0 + col_offset) / 4) as u8,
        buf_cols: ((lower_right.0 - upper_left.0) / 4) as u8,
    }
}

/// The part of `upper_left`..`lower_right` within the viewable area: the first `cols` columns
/// and the 128 rows of display RAM.
pub open spec fn viewable_part(upper_left: PixelCoord, lower_right: PixelCoord, cols: int) -> (
    PixelCoord,
    PixelCoord,
) {
    (
        PixelCoord(
            clipped(0, upper_left.0 as int, cols) as i16,
            clipped(0, upper_left.1 as int, 128) as i16,
        ),
        PixelCoord(
            clipped(0, lower_right.0 as int, cols) as i16,
            clipped(0, lower_right.1 as int, 128) as i16,
        ),
    )
}

/// A driver for an SSD1322 display.
pub struct Display<DI: DisplayInterface> {
    iface: DI,
    display_size: PixelCoord,
    display_offset: PixelCoord,
    persistent_config: Option<PersistentConfig>,
}

impl<DI: DisplayInterface> Display<DI> {
    /// The transfers handed to the bus so far.
    pub closed spec fn sent(&self) -> Seq<Transfer> {
        self.iface.sent()
    }

    /// The size of the display in pixels.
    pub closed spec fn size(&self) -> PixelCoord {
        self.display_size
    }

    /// The controller column and COM line of the display's pixel (0, 0).
    pub closed spec fn offset(&self) -> PixelCoord {
        self.display_offset
    }

    /// The COM settings kept from initialization.
    pub closed spec fn persistent(&self) -> Option<PersistentConfig> {
        self.persistent_config
    }

    pub closed spec fn wf(&self) -> bool {
        valid_geometry(self.display_size, self.display_offset)
    }

    /// A driver for a display of `display_size` pixels on `iface`, whose pixel (0, 0) sits at
    /// controller column `display_offset.0` and COM line `display_offset.1`.
    pub fn new(iface: DI, display_size: PixelCoord, display_offset: PixelCoord) -> (r: Self)
        requires
            valid_geometry(display_size, display_offset),
        ensures
            r.wf(),
            r.sent() == iface.sent(),
            r.size() == display_size,
            r.offset() == display_offset,
            r.persistent() is None,
    {
        Display { iface, display_size, display_offset, persistent_config: None }
    }

    /// The bus.
    pub fn interface(&self) -> (r: &DI)
        ensures
            r.sent() == self.sent(),
    {
        &self.iface
    }

    /// The bus, for direct use.
    pub fn interface_mut(&mut self) -> (r: &mut DI)
        ensures
            r.sent() == old(self).sent(),
            final(self).sent() == final(r).sent(),
            final(self).size() == old(self).size(),
            final(self).offset() == old(self).offset(),
            final(self).persistent() == old(self).persistent(),
            final(self).wf() == old(self).wf(),
    {
        &mut self.iface
    }

    /// Initialize the display with `config` (see `init_commands`). The display keeps the
    /// configuration's COM settings. On failure the rest of the sequence is not sent.
    pub fn init(&mut self, config: Config) -> (r: Result<(), Error<DI::Error>>)
        ensures
            performed(
                old(self).sent(),
                final(self).sent(),
                commands_plan(init_commands(old(self).size(), old(self).offset(), config)),
                r,
            ),
            final(self).persistent() == Some(config.persistent()),
            final(self).size() == old(self).size(),
            final(self).offset() == old(self).offset(),
            final(self).wf() == old(self).wf(),
    {
        let persistent = config.persistent_config();
        self.persistent_config = Some(persistent);
        let mut cmds: Vec<Command> = vec![
            Command::SetSleepMode(true),
            Command::SetDisplayMode(DisplayMode::BlankDark),
        ];
        let optional = config.pending_commands();
        let mut i: usize = 0;
        while i < optional.len()
            invariant
                i <= optional@.len(),
                cmds@ == seq![Command::SetSleepMode(true), Command::SetDisplayMode(DisplayMode::BlankDark)]
                    + optional@.take(i as int),
            decreases optional@.len() - i,
        {
            cmds.push(optional[i]);
            assert(optional@.take(i + 1) =~= optional@.take(i as int).push(optional@[i as int]));
            i = i + 1;
        }
        assert(optional@.take(i as int) =~= optional@);
        cmds.push(Command::SetMuxRatio(self.display_size.1 as u8));
        cmds.push(Command::SetDisplayOffset(self.display_offset.1 as u8));
        cmds.push(Command::SetStartLine(0));
        cmds.push(
            Command::SetRemapping(
                IncrementAxis::Horizontal,
                ColumnRemap::Forward,
                NibbleRemap::Forward,
                persistent.com_scan_direction,
                persistent.com_layout,
            ),
        );
        cmds.push(Command::SetSleepMode(false));
        cmds.push(Command::SetDisplayMode(DisplayMode::Normal));
        assert(cmds@ =~= init_commands(self.display_size, self.display_offset, config));
        send_commands(&cmds, &mut self.iface)
    }

    /// Enter (`true`) or leave (`false`) sleep mode.
    pub fn sleep(&mut self, enabled: bool) -> (r: Result<(), Error<DI::Error>>)
        ensures
            performed(old(self).sent(), final(self).sent(), Command::SetSleepMode(enabled).plan(), r),
            final(self).size() == old(self).size(),
            final(self).offset() == old(self).offset(),
            final(self).persistent() == old(self).persistent(),
            final(self).wf() == old(self).wf(),
    {
        Command::SetSleepMode(enabled).send(&mut self.iface)
    }

    /// Set the master contrast, 0-15.
    pub fn contrast(&mut self, contrast: u8) -> (r: Result<(), Error<DI::Error>>)
        ensures
            performed(old(self).sent(), final(self).sent(), Command::SetMasterContrast(contrast).plan(), r),
            final(self).size() == old(self).size(),
            final(self).offset() == old(self).offset(),
            final(self).persistent() == old(self).persistent(),
            final(self).wf() == old(self).wf(),
    {
        Command::SetMasterContrast(contrast).send(&mut self.iface)
    }

    /// Pan vertically: show display RAM from row `offset` (0-127) at the top of the display.
    pub fn vertical_pan(&mut self, offset: u8) -> (r: Result<(), Error<DI::Error>>)
        ensures
            performed(old(self).sent(), final(self).sent(), Command::SetStartLine(offset).plan(), r),
            final(self).size() == old(self).size(),
            final(self).offset() == old(self).offset(),
            final(self).persistent() == old(self).persistent(),
            final(self).wf() == old(self).wf(),
    {
        Command::SetStartLine(offset).send(&mut self.iface)
    }

    /// A region over the pixels `upper_left`..`lower_right` (exclusive), which must satisfy
    /// `region_allowed`; otherwise `InvalidArgument`. Nothing is sent. The region borrows the
    /// display until it is dropped.
    pub fn region<'a>(&'a mut self, upper_left: PixelCoord, lower_right: PixelCoord) -> (r: Result<
        Region<'a, DI>,
        Error<DI::Error>,
    >)
        requires
            old(self).wf(),
        ensures
            match r {
                Ok(region) => {
                    &&& region_allowed(old(self).size(), upper_left, lower_right)
                    &&& region.window() == window_of(upper_left, lower_right, old(self).offset().0)
                    &&& region.sent() == old(self).sent()
                    &&& final(self).sent() == final(region.iface()).sent()
                },
                Err(e) => {
                    &&& !region_allowed(old(self).size(), upper_left, lower_right)
                    &&& e == Error::<DI::Error>::InvalidArgument
                    &&& final(self).sent() == old(self).sent()
                },
            },
            final(self).size() == old(self).size(),
            final(self).offset() == old(self).offset(),
            final(self).persistent() == old(self).persistent(),
            final(self).wf() == old(self).wf(),
    {
        if upper_left.0 < 0 || upper_left.1 < 0 || upper_left.0 >= lower_right.0
            || upper_left.1 >= lower_right.1 || lower_right.0 > self.display_size.0
            || lower_right.1 > 128 || upper_left.0 % 4 != 0 || lower_right.0 % 4 != 0 {
            return Err(Error::InvalidArgument);
        }
        // The column offset is added here; the row offset is applied by the controller
        // (display offset command).
        let col_offset = self.display_offset.0;
        let window = Window {
            top: upper_left.1 as u8,
            rows: (lower_right.1 - upper_left.1) as u8,
            buf_left: ((upper_left.0 + col_offset) / 4) as u8,
            buf_cols: ((lower_right.0 - upper_left.0) / 4) as u8,
        };
        Ok(Region::new(&mut self.iface, window))
    }

    /// A region over the pixels `upper_left`..`lower_right` (exclusive), which may extend beyond
    /// the viewable area; what falls outside it is dropped when drawing. The rectangle must be
    /// ordered with columns aligned to buffer columns (`rect_ok`); otherwise `InvalidArgument`.
    /// Nothing is sent. When the viewable part of the rectangle is empty the region draws
    /// nothing and the display is not borrowed beyond the call; otherwise the region borrows the
    /// display until it is dropped.
    pub fn overscanned_region<'a>(
        &'a mut self,
        upper_left: PixelCoord,
        lower_right: PixelCoord,
    ) -> (r: Result<OverscannedRegion<'a, DI>, Error<DI::Error>>)
        requires
            old(self).wf(),
        ensures
            match r {
                Ok(o) => {
                    let (vul, vlr) = viewable_part(upper_left, lower_right, old(self).size().0 as int);
                    &&& rect_ok(upper_left, lower_right)
                    &&& o.upper_left() == upper_left
                    &&& o.lower_right() == lower_right
                    &&& o.viewable_cols() == old(self).size().0
                    &&& match o.viewable() {
                        None => {
                            &&& (vul.0 == vlr.0 || vul.1 == vlr.1)
                            &&& final(self).sent() == old(self).sent()
                        },
                        Some(region) => {
                            &&& vul.0 != vlr.0 && vul.1 != vlr.1
                            &&& region.window() == window_of(vul, vlr, old(self).offset().0)
                            &&& region.sent() == old(self).sent()
                            &&& final(self).sent() == final(region.iface()).sent()
                        },
                    }
                },
                Err(e) => {
                    &&& !rect_ok(upper_left, lower_right)
                    &&& e == Error::<DI::Error>::InvalidArgument
                    &&& final(self).sent() == old(self).sent()
                },
            },
            final(self).size() == old(self).size(),
            final(self).offset() == old(self).offset(),
            final(self).persistent() == old(self).persistent(),
            final(self).wf() == old(self).wf(),
    {
        if upper_left.0 >= lower_right.0 || upper_left.1 >= lower_right.1 || upper_left.0 % 4 != 0
            || lower_right.0 % 4 != 0 {
            return Err(Error::InvalidArgument);
        }
        let cols = self.display_size.0;
        let vul = PixelCoord(clip(0, upper_left.0, cols), clip(0, upper_left.1, 128));
        let vlr = PixelCoord(clip(0, lower_right.0, cols), clip(0, lower_right.1, 128));
        let viewable = if vul.0 == vlr.0 || vul.1 == vlr.1 {
            None
        } else {
            let col_offset = self.display_offset.0;
            let window = Window {
                top: vul.1 as u8,
                rows: (vlr.1 - vul.1) as u8,
                buf_left: ((vul.0 + col_offset) / 4) as u8,
                buf_cols: ((vlr.0 - vul.0) / 4) as u8,
            };
            Some(Region::new(&mut self.iface, window))
        };
        Ok(OverscannedRegion::new(viewable, upper_left, lower_right, cols))
    }
}

/// A rectangle that lies entirely outside the viewable area has an empty viewable part, so an
/// overscanned region over it sends nothing; nor would any of its bytes be drawn.
pub proof fn lemma_outside_sends_nothing(
    upper_left: PixelCoord,
    lower_right: PixelCoord,
    cols: int,
    data: Seq<u8>,
)
    requires
        rect_ok(upper_left, lower_right),
        0 <= cols <= 480,
        lower_right.0 <= 0 || upper_left.0 >= cols || lower_right.1 <= 0 || upper_left.1 >= 128,
    ensures
        ({
            let (vul, vlr) = viewable_part(upper_left, lower_right, cols);
            vul.0 == vlr.0 || vul.1 == vlr.1
        }),
        visible_stream(upper_left, lower_right, cols, data) == Seq::<u8>::empty(),
{
    lemma_outside_nothing_visible(upper_left, lower_right, cols, data);
}

/// When the data covers the whole logical rectangle of an overscanned region, the bytes that
/// reach its viewable region fill that region's window exactly.
pub proof fn lemma_overscan_fills_window(
    upper_left: PixelCoord,
    lower_right: PixelCoord,
    cols: int,
    col_offset: i16,
    data: Seq<u8>,
)
    requires
        rect_ok(upper_left, lower_right),
        0 <= cols <= 480,
        cols % 4 == 0,
        ({
            let (vul, vlr) = viewable_part(upper_left, lower_right, cols);
            vul.0 != vlr.0 && vul.1 != vlr.1
        }),
        data.len() >= (lower_right.1 - upper_left.1) * ((lower_right.0 - upper_left.0) / 2),
    ensures
        ({
            let (vul, vlr) = viewable_part(upper_left, lower_right, cols);
            visible_stream(upper_left, lower_right, cols, data).len() == window_of(
                vul,
                vlr,
                col_offset,
            ).capacity()
        }),
{
    let (vul, vlr) = viewable_part(upper_left, lower_right, cols);
    let w = (lower_right.0 - upper_left.0) / 2;
    let h = lower_right.1 - upper_left.1;
    lemma_visible_len_is_count(upper_left, lower_right, cols, data);
    lemma_count_past_end(upper_left, lower_right, cols, data.len() as int);
    lemma_count_rows(upper_left, lower_right, cols, h);
    lemma_row_count_closed(upper_left, h);
    lemma_col_count_closed(upper_left, cols, w);
    let rows = row_count(upper_left, h);
    let k = col_count(upper_left, cols, w);
    assert(upper_left.0 + 2 * w == lower_right.0);
    assert(rows == vlr.1 - vul.1);
    assert(2 * k == vlr.0 - vul.0);
    assert(vul.0 % 4 == 0 && vlr.0 % 4 == 0);
    let d = vlr.0 - vul.0;
    assert(4 * (d / 4) * rows / 2 == k * rows) by (nonlinear_arith)
        requires
            d == 2 * k,
            d % 4 == 0,
    ;
    assert(window_of(vul, vlr, col_offset).capacity() == 4 * (d / 4) * rows / 2);
}

} // verus!
