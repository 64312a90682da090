//! Rectangular regions of display RAM into which image data is streamed.

use vstd::prelude::*;

use crate::command::{BufCommand, Command};
use crate::stream::{stream_chunks, Base, Cursor};
use crate::interface::{
    command_transfers, lemma_followed_by_err, lemma_followed_by_ok, performed, followed_by, DisplayInterface, Error,
    Plan, Transfer,
};

verus! {

/// Number of bytes handed to the bus in one data transfer while streaming image data.
pub const CHUNK_LEN: usize = 32;

/// A window of display RAM: `rows` rows from `top`, `buf_cols` buffer columns (of four pixels)
/// from `buf_left`.
#[derive(Clone, Copy, Debug, PartialEq, Eq, Structural)]
pub struct Window {
    pub top: u8,
    pub rows: u8,
    pub buf_left: u8,
    pub buf_cols: u8,
}

impl Window {
    /// The window is not empty and lies within display RAM.
    pub open spec fn wf(&self) -> bool {
        &&& 1 <= self.rows
        &&& self.top + self.rows <= 128
        &&& 1 <= self.buf_cols
        &&& self.buf_left + self.buf_cols <= 120
    }

    /// Width of the window in pixels.
    pub open spec fn pixel_cols(&self) -> int {
        4 * self.buf_cols
    }

    /// Number of bytes of image data that fill the window (two pixels per byte).
    pub open spec fn capacity(&self) -> int {
        self.pixel_cols() * self.rows / 2
    }

    /// The commands that select the window and put the controller in write mode.
    pub open spec fn header(&self) -> Seq<Transfer> {
        command_transfers(
            0x15,
            seq![self.buf_left, (self.buf_left + self.buf_cols - 1) as u8],
        ) + command_transfers(0x75, seq![self.top, (self.top + self.rows - 1) as u8]) + seq![
            Transfer::Command(0x5C),
        ]
    }
}

/// The smaller of two integers.
pub open spec fn min(a: int, b: int) -> int {
    if a <= b {
        a
    } else {
        b
    }
}

/// Number of chunks that carry `len` bytes.
pub open spec fn chunk_count(len: int) -> int {
    (len + 31) / 32
}

/// `s` cut into data transfers of 32 bytes, the last one shorter when the length is not a
/// multiple of 32.
pub open spec fn chunks(s: Seq<u8>) -> Seq<Transfer> {
    Seq::new(
        chunk_count(s.len() as int) as nat,
        |i: int| Transfer::Data(s.subrange(32 * i, min(32 * i + 32, s.len() as int))),
    )
}

/// The bytes of a packed image stream that fit in `window`.
pub open spec fn clipped_stream(window: Window, data: Seq<u8>) -> Seq<u8> {
    data.take(min(data.len() as int, window.capacity()))
}

/// What drawing `data` into `window` does on the bus: select the window, enter write mode, then
/// stream as much of `data` as fits, in chunks.
pub open spec fn draw_plan(window: Window, data: Seq<u8>) -> Plan {
    Plan { transfers: window.header() + chunks(clipped_stream(window, data)), valid: true }
}

/// The byte that packs pixels `2 * j` and `2 * j + 1` of `pixels`, the left one in the high
/// nibble; a missing right pixel packs as zero.
pub open spec fn packed_byte(pixels: Seq<u8>, j: int) -> u8 {
    if 2 * j + 1 < pixels.len() {
        ((pixels[2 * j] << 4u8) | (pixels[2 * j + 1] & 0x0Fu8)) as u8
    } else {
        (pixels[2 * j] << 4u8) as u8
    }
}

/// One-pixel-per-byte intensities packed two pixels per byte.
pub open spec fn pack(pixels: Seq<u8>) -> Seq<u8> {
    Seq::new(((pixels.len() + 1) / 2) as nat, |j: int| packed_byte(pixels, j))
}

/// A window known to be well formed.
struct CheckedWindow {
    window: Window,
}

impl CheckedWindow {
    #[verifier::type_invariant]
    spec fn inv(&self) -> bool {
        self.window.wf()
    }
}

/// A handle to a rectangular region of display RAM. It borrows the display's bus for as long as
/// it lives, so no other region can be drawn into meanwhile.
pub struct Region<'a, DI: DisplayInterface> {
    iface: &'a mut DI,
    window: CheckedWindow,
}

impl<'a, DI: DisplayInterface> Region<'a, DI> {
    /// The window of display RAM that this region covers.
    pub closed spec fn window(&self) -> Window {
        self.window.window
    }

    /// The borrowed bus.
    pub closed spec fn iface(&self) -> &'a mut DI {
        self.iface
    }

    /// The transfers handed to the bus so far.
    pub open spec fn sent(&self) -> Seq<Transfer> {
        self.iface().sent()
    }

    /// A region over `window`, drawing through `iface`.
    pub(crate) fn new(iface: &'a mut DI, window: Window) -> (r: Self)
        requires
            window.wf(),
        ensures
            r.window() == window,
            *r.iface() == *old(iface),
            *final(r.iface()) == *final(iface),
    {
        Region { iface, window: CheckedWindow { window } }
    }

    /// Draw packed image data, two pixels per byte (left pixel in the high nibble), left to
    /// right and top to bottom. Exactly as many bytes as fill the region are sent, or all of
    /// `data` if it is shorter; the rest of `data` is ignored.
    pub fn draw_packed(&mut self, data: &[u8]) -> (r: Result<(), Error<DI::Error>>)
        ensures
            performed(old(self).sent(), final(self).sent(), draw_plan(old(self).window(), data@), r),
            final(self).window() == old(self).window(),
            *final(final(self).iface()) == *final(old(self).iface()),
    {
        let mut cursor = Cursor::new(Base::Packed(data), None);
        self.draw_stream(&mut cursor)
    }

    /// Draw unpacked image data, one pixel intensity (0-15) per byte, left to right and top to
    /// bottom: the pixels are packed two per byte as they are read and drawn as by
    /// `draw_packed`.
    pub fn draw(&mut self, pixels: &[u8]) -> (r: Result<(), Error<DI::Error>>)
        ensures
            performed(
                old(self).sent(),
                final(self).sent(),
                draw_plan(old(self).window(), pack(pixels@)),
                r,
            ),
            final(self).window() == old(self).window(),
            *final(final(self).iface()) == *final(old(self).iface()),
    {
        let mut cursor = Cursor::new(Base::Pixels(pixels), None);
        self.draw_stream(&mut cursor)
    }

    /// Select the window, enter write mode, then stream as much of the cursor's stream as fits.
    pub(crate) fn draw_stream(&mut self, cursor: &mut Cursor) -> (r: Result<(), Error<DI::Error>>)
        requires
            old(cursor).wf(),
            old(cursor).emitted == 0,
        ensures
            performed(
                old(self).sent(),
                final(self).sent(),
                draw_plan(old(self).window(), old(cursor).stream()),
                r,
            ),
            final(self).window() == old(self).window(),
            *final(final(self).iface()) == *final(old(self).iface()),
    {
        proof {
            use_type_invariant(&self.window);
        }
        let ghost before = self.sent();
        let ghost data = cursor.stream();
        let w = self.window.window;
        let ghost col = Command::SetColumnAddress(w.buf_left, (w.buf_left + w.buf_cols - 1) as u8);
        let ghost row = Command::SetRowAddress(w.top, (w.top + w.rows - 1) as u8);
        let empty: [u8; 0] = [];
        assert(empty@ =~= Seq::<u8>::empty());
        let ghost start = BufCommand::WriteImageData(&empty).plan();
        let ghost header = followed_by(followed_by(col.plan(), row.plan()), start);
        assert(header.transfers =~= w.header());
        assert((w.buf_cols as int) * (w.rows as int) <= 120 * 128) by (nonlinear_arith)
            requires
                w.buf_cols <= 120,
                w.rows <= 128,
        ;
        assert(w.capacity() == 2 * ((w.buf_cols as int) * (w.rows as int))) by (nonlinear_arith);
        let cap: usize = 2 * ((w.buf_cols as usize) * (w.rows as usize));
        let ghost stream = Plan { transfers: chunks(clipped_stream(w, data)), valid: true };
        assert(followed_by(header, stream) == draw_plan(w, data));

        let r = Command::SetColumnAddress(w.buf_left, w.buf_left + w.buf_cols - 1).send(self.iface);
        if r.is_err() {
            proof {
                lemma_followed_by_err(before, self.sent(), col.plan(), row.plan(), r);
                lemma_followed_by_err(before, self.sent(), followed_by(col.plan(), row.plan()), start, r);
                lemma_followed_by_err(before, self.sent(), header, stream, r);
            }
            return r;
        }
        let ghost after_columns = self.sent();
        let r = Command::SetRowAddress(w.top, w.top + w.rows - 1).send(self.iface);
        proof {
            lemma_followed_by_ok(before, after_columns, self.sent(), col.plan(), row.plan(), r);
        }
        if r.is_err() {
            proof {
                lemma_followed_by_err(before, self.sent(), followed_by(col.plan(), row.plan()), start, r);
                lemma_followed_by_err(before, self.sent(), header, stream, r);
            }
            return r;
        }
        let ghost after_rows = self.sent();
        let r = BufCommand::WriteImageData(&empty).send(self.iface);
        proof {
            lemma_followed_by_ok(before, after_rows, self.sent(), followed_by(col.plan(), row.plan()), start, r);
        }
        if r.is_err() {
            proof {
                lemma_followed_by_err(before, self.sent(), header, stream, r);
            }
            return r;
        }
        let ghost after_start = self.sent();
        let r = stream_chunks(self.iface, cursor, cap);
        proof {
            lemma_followed_by_ok(before, after_start, self.sent(), header, stream, r);
        }
        r
    }
}

/// The data bytes carried by a sequence of transfers, in order.
pub open spec fn data_bytes(transfers: Seq<Transfer>) -> Seq<u8>
    decreases transfers.len(),
{
    if transfers.len() == 0 {
        Seq::empty()
    } else {
        data_bytes(transfers.drop_last()) + match transfers.last() {
            Transfer::Data(d) => d,
            Transfer::Command(_) => Seq::empty(),
        }
    }
}

/// The first `i` chunks of `s` carry the first `32 * i` bytes of `s` (or all of them).
proof fn lemma_chunks_prefix(s: Seq<u8>, i: int)
    requires
        0 <= i <= chunk_count(s.len() as int),
    ensures
        data_bytes(chunks(s).take(i)) == s.take(min(32 * i, s.len() as int)),
    decreases i,
{
    if i == 0 {
        assert(chunks(s).take(0) =~= Seq::<Transfer>::empty());
        assert(s.take(0) =~= Seq::<u8>::empty());
    } else {
        let c = chunks(s);
        assert(c.take(i).drop_last() =~= c.take(i - 1));
        lemma_chunks_prefix(s, i - 1);
        assert(s.take(min(32 * (i - 1), s.len() as int)) + s.subrange(
            32 * (i - 1),
            min(32 * (i - 1) + 32, s.len() as int),
        ) =~= s.take(min(32 * i, s.len() as int)));
    }
}

/// Drawing sends, after the commands that select the window, data transfers of 1 to 32 bytes
/// that together carry exactly the first `min(data.len(), capacity)` bytes of `data`: the
/// stream is cut off when the window is full and stops early when the data runs out.
pub proof fn lemma_draw_streams_exactly(window: Window, data: Seq<u8>)
    ensures
        draw_plan(window, data).transfers.take(window.header().len() as int) == window.header(),
        data_bytes(draw_plan(window, data).transfers.skip(window.header().len() as int))
            == data.take(min(data.len() as int, window.capacity())),
        data.take(min(data.len() as int, window.capacity())).len() == min(
            data.len() as int,
            window.capacity(),
        ),
        forall|i: int|
            0 <= i < draw_plan(window, data).transfers.len() - window.header().len() ==> {
                let t = #[trigger] draw_plan(window, data).transfers.skip(
                    window.header().len() as int,
                )[i];
                &&& t is Data
                &&& 1 <= t->Data_0.len() <= 32
            },
{
    let plan = draw_plan(window, data);
    let h = window.header();
    let s = clipped_stream(window, data);
    let c = chunks(s);
    assert(plan.transfers.take(h.len() as int) =~= h);
    assert(plan.transfers.skip(h.len() as int) =~= c);
    assert(s.len() == min(data.len() as int, window.capacity()));
    lemma_chunks_prefix(s, chunk_count(s.len() as int));
    assert(c.take(chunk_count(s.len() as int)) =~= c);
    assert(s.take(min(32 * chunk_count(s.len() as int), s.len() as int)) =~= s);
}

} // verus!
