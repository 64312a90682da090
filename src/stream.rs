//! Sources of image bytes, read one byte at a time so that drawing needs no buffer beyond one
//! chunk: packed bytes as given, pixels packed two per byte as they are read, and either of
//! these restricted to the bytes that fall within the viewable area of an overscanned rectangle.

use vstd::prelude::*;

use crate::display::PixelCoord;
use crate::interface::{performed, DisplayInterface, Error, Plan, Transfer};
use crate::overscanned_region::{byte_visible, in_range, rect_ok, visible_stream};
use crate::region::{chunk_count, chunks, min, pack, CHUNK_LEN};

verus! {

/// Image bytes with random access.
pub(crate) enum Base<'s> {
    /// Packed bytes, two pixels each.
    Packed(&'s [u8]),
    /// One pixel intensity per byte, packed two per byte when read.
    Pixels(&'s [u8]),
}

impl<'s> Base<'s> {
    /// The packed bytes this base yields.
    pub(crate) open spec fn bytes(&self) -> Seq<u8> {
        match self {
            Base::Packed(data) => data@,
            Base::Pixels(pixels) => pack(pixels@),
        }
    }

    pub(crate) fn len(&self) -> (r: usize)
        ensures
            r == self.bytes().len(),
    {
        match self {
            Base::Packed(data) => data.len(),
            Base::Pixels(pixels) => pixels.len() / 2 + pixels.len() % 2,
        }
    }

    pub(crate) fn byte(&self, i: usize) -> (r: u8)
        requires
            i < self.bytes().len(),
        ensures
            r == self.bytes()[i as int],
    {
        match self {
            Base::Packed(data) => data[i],
            Base::Pixels(pixels) => {
                let n = pixels.len();
                assert(2 * i + 1 <= n);
                let left = pixels[2 * i];
                if 2 * i + 1 < n {
                    (left << 4u8) | (pixels[2 * i + 1] & 0x0Fu8)
                } else {
                    left << 4u8
                }
            },
        }
    }
}

/// The logical rectangle of an overscanned region and the width of the viewable area.
#[derive(Clone, Copy)]
pub(crate) struct Clip {
    pub(crate) upper_left: PixelCoord,
    pub(crate) lower_right: PixelCoord,
    pub(crate) viewable_cols: i16,
}

impl Clip {
    pub(crate) open spec fn wf(&self) -> bool {
        rect_ok(self.upper_left, self.lower_right) && 0 <= self.viewable_cols
    }

    /// The bytes of `data` that fall within the viewable area.
    pub(crate) open spec fn visible(&self, data: Seq<u8>) -> Seq<u8> {
        visible_stream(self.upper_left, self.lower_right, self.viewable_cols as int, data)
    }

    /// Whether byte `i` of the stream falls within the viewable area.
    pub(crate) fn is_visible(&self, i: usize) -> (r: bool)
        requires
            self.wf(),
        ensures
            r == byte_visible(self.upper_left, self.lower_right, self.viewable_cols as int, i as int),
    {
        let ul = self.upper_left;
        let lr = self.lower_right;
        let bytes_per_row: u64 = ((lr.0 as i32 - ul.0 as i32) / 2) as u64;
        let rows: u64 = (lr.1 as i32 - ul.1 as i32) as u64;
        assert(rows * bytes_per_row <= 65536 * 32768) by (nonlinear_arith)
            requires
                rows <= 65536,
                bytes_per_row <= 32768,
        ;
        let n: u64 = rows * bytes_per_row;
        if (i as u64) < n {
            let idx = i as u64;
            assert(idx / bytes_per_row <= idx) by (nonlinear_arith)
                requires
                    bytes_per_row >= 1,
            ;
            let row: i64 = ul.1 as i64 + (idx / bytes_per_row) as i64;
            let col: i64 = ul.0 as i64 + 2 * ((idx % bytes_per_row) as i64);
            in_range(row, 0, 128) && in_range(col, 0, self.viewable_cols as i64)
        } else {
            false
        }
    }
}

/// No more bytes are visible than there are.
pub(crate) proof fn lemma_visible_len(clip: Clip, data: Seq<u8>)
    ensures
        clip.visible(data).len() <= data.len(),
    decreases data.len(),
{
    if data.len() > 0 {
        lemma_visible_len(clip, data.drop_last());
    }
}

/// The visible bytes of a prefix of `data` are a prefix of the visible bytes of `data`.
pub(crate) proof fn lemma_visible_prefix(clip: Clip, data: Seq<u8>, p: int)
    requires
        0 <= p <= data.len(),
    ensures
        clip.visible(data.take(p)).len() <= clip.visible(data).len(),
        clip.visible(data).take(clip.visible(data.take(p)).len() as int) == clip.visible(
            data.take(p),
        ),
    decreases data.len() - p,
{
    if p == data.len() {
        assert(data.take(p) =~= data);
        assert(clip.visible(data).take(clip.visible(data).len() as int) =~= clip.visible(data));
    } else {
        lemma_visible_prefix(clip, data, p + 1);
        let next = data.take(p + 1);
        assert(next.drop_last() =~= data.take(p));
        let short = clip.visible(data.take(p));
        let long = clip.visible(next);
        assert(long.take(short.len() as int) =~= short);
        assert(clip.visible(data).take(short.len() as int) =~= long.take(short.len() as int));
    }
}

/// A cursor over an image stream: the bytes of `base`, or only those that fall within the
/// viewable area of `clip`. `pos` is the position in `base`, `emitted` the number of bytes of
/// the stream read so far.
pub(crate) struct Cursor<'s> {
    pub(crate) base: Base<'s>,
    pub(crate) clip: Option<Clip>,
    pub(crate) pos: usize,
    pub(crate) emitted: usize,
}

impl<'s> Cursor<'s> {
    /// The whole stream.
    pub(crate) open spec fn stream(&self) -> Seq<u8> {
        match self.clip {
            None => self.base.bytes(),
            Some(clip) => clip.visible(self.base.bytes()),
        }
    }

    pub(crate) open spec fn wf(&self) -> bool {
        &&& self.pos <= self.base.bytes().len()
        &&& self.emitted <= self.stream().len()
        &&& match self.clip {
            None => self.emitted == self.pos,
            Some(clip) => {
                &&& clip.wf()
                &&& clip.visible(self.base.bytes().take(self.pos as int)).len() == self.emitted
            },
        }
    }

    /// A cursor at the start of the stream.
    pub(crate) fn new(base: Base<'s>, clip: Option<Clip>) -> (r: Self)
        requires
            clip matches Some(c) ==> c.wf(),
        ensures
            r.wf(),
            r.base == base,
            r.clip == clip,
            r.emitted == 0,
    {
        let r = Cursor { base, clip, pos: 0, emitted: 0 };
        assert(r.base.bytes().take(0) =~= Seq::<u8>::empty());
        r
    }

    /// The next byte of the stream, if any.
    pub(crate) fn next(&mut self) -> (r: Option<u8>)
        requires
            old(self).wf(),
        ensures
            final(self).wf(),
            final(self).base == old(self).base,
            final(self).clip == old(self).clip,
            r is None ==> old(self).emitted == old(self).stream().len(),
            r is None ==> final(self).emitted == old(self).emitted,
            r matches Some(b) ==> old(self).emitted < old(self).stream().len(),
            r matches Some(b) ==> b == old(self).stream()[old(self).emitted as int],
            r matches Some(b) ==> final(self).emitted == old(self).emitted + 1,
    {
        let n = self.base.len();
        match self.clip {
            None => {
                if self.pos < n {
                    let b = self.base.byte(self.pos);
                    self.pos = self.pos + 1;
                    self.emitted = self.emitted + 1;
                    Some(b)
                } else {
                    None
                }
            },
            Some(clip) => {
                let ghost data = self.base.bytes();
                while self.pos < n && !clip.is_visible(self.pos)
                    invariant
                        self.base == old(self).base,
                        self.clip == old(self).clip,
                        self.clip == Some(clip),
                        self.emitted == old(self).emitted,
                        n == data.len(),
                        data == self.base.bytes(),
                        self.wf(),
                    decreases n - self.pos,
                {
                    assert(data.take(self.pos + 1).drop_last() =~= data.take(self.pos as int));
                    self.pos = self.pos + 1;
                }
                if self.pos == n {
                    assert(data.take(n as int) =~= data);
                    None
                } else {
                    let b = self.base.byte(self.pos);
                    proof {
                        let p = self.pos as int;
                        lemma_visible_len(clip, data.take(p));
                        assert(data.take(p + 1).drop_last() =~= data.take(p));
                        assert(data.take(p + 1).last() == b);
                        assert(byte_visible(
                            clip.upper_left,
                            clip.lower_right,
                            clip.viewable_cols as int,
                            p,
                        ));
                        assert(clip.visible(data.take(p + 1)) == clip.visible(data.take(p)).push(b));
                        lemma_visible_prefix(clip, data, p + 1);
                        let full = clip.visible(data);
                        assert(full.take(self.emitted + 1) == clip.visible(data.take(p + 1)));
                        assert(full[self.emitted as int] == full.take(self.emitted + 1)[self.emitted as int]);
                    }
                    self.pos = self.pos + 1;
                    self.emitted = self.emitted + 1;
                    Some(b)
                }
            },
        }
    }
}

/// Hand the first `limit` bytes of the cursor's stream (or all of it, if shorter) to the bus in
/// chunks of `CHUNK_LEN` bytes, stopping at the first failure. One chunk is held at a time.
pub(crate) fn stream_chunks<DI: DisplayInterface>(
    iface: &mut DI,
    cursor: &mut Cursor,
    limit: usize,
) -> (r: Result<(), Error<DI::Error>>)
    requires
        old(cursor).wf(),
        old(cursor).emitted == 0,
    ensures
        performed(
            old(iface).sent(),
            final(iface).sent(),
            Plan {
                transfers: chunks(
                    old(cursor).stream().take(
                        min(old(cursor).stream().len() as int, limit as int),
                    ),
                ),
                valid: true,
            },
            r,
        ),
{
    let ghost before = iface.sent();
    let ghost full = cursor.stream();
    let ghost total = min(full.len() as int, limit as int);
    let ghost s = full.take(total);
    let ghost all = chunks(s);
    let ghost plan = Plan { transfers: all, valid: true };
    let mut count: usize = 0;
    let mut i: usize = 0;
    assert(all.take(0) =~= Seq::<Transfer>::empty());
    loop
        invariant
            cursor.wf(),
            cursor.stream() == full,
            full == old(cursor).stream(),
            count == cursor.emitted,
            count <= total,
            total == min(full.len() as int, limit as int),
            s == full.take(total),
            all == chunks(s),
            plan == (Plan { transfers: all, valid: true }),
            count == 32 * i,
            before == old(iface).sent(),
            iface.sent() == before + all.take(i as int),
        decreases total - count,
    {
        let ghost start = count as int;
        let mut chunk: Vec<u8> = Vec::new();
        let mut exhausted = false;
        assert(full.subrange(start, start) =~= Seq::<u8>::empty());
        while chunk.len() < CHUNK_LEN && count < limit && !exhausted
            invariant
                cursor.wf(),
                cursor.stream() == full,
                count == cursor.emitted,
                count <= total,
                total == min(full.len() as int, limit as int),
                start == 32 * i,
                start <= count,
                chunk@ == full.subrange(start, count as int),
                chunk.len() <= CHUNK_LEN,
                exhausted ==> count == full.len(),
            decreases (CHUNK_LEN - chunk.len()) * 2 + if exhausted {
                0int
            } else {
                1int
            },
        {
            match cursor.next() {
                Some(b) => {
                    chunk.push(b);
                    count = count + 1;
                    assert(chunk@ =~= full.subrange(start, count as int));
                },
                None => {
                    exhausted = true;
                },
            }
        }
        if chunk.len() == 0 {
            proof {
                assert(i as int == chunk_count(total));
                assert(all.take(i as int) =~= all);
            }
            return Ok(());
        }
        proof {
            assert(i < chunk_count(total));
            assert(count as int == min(32 * i + 32, total));
            assert(s.subrange(32 * i, min(32 * i + 32, s.len() as int)) =~= chunk@);
            assert(all[i as int] == Transfer::Data(chunk@));
            assert(all.take(i + 1) =~= all.take(i as int).push(all[i as int]));
        }
        let full_chunk = chunk.len() == CHUNK_LEN;
        match iface.send_data(chunk.as_slice()) {
            Err(e) => {
                assert(iface.sent() == before + plan.transfers.take(i + 1));
                return Err(Error::Transport(e));
            },
            Ok(()) => {},
        }
        i = i + 1;
        if !full_chunk {
            proof {
                assert(i as int == chunk_count(total));
                assert(all.take(i as int) =~= all);
            }
            return Ok(());
        }
    }
}

} // verus!
