//! Cursors over bytes in memory: a position in a borrowed range, in a
//! borrowed range that can be overwritten, or in a buffer that grows.
//!
//! A position is any `u64`. One beyond the end reads nothing and, in a fixed
//! range, writes nothing; in a growing buffer a write there first fills the
//! gap with zeros.

use std::io::SeekFrom;
use vstd::prelude::*;
use vstd::slice::slice_subrange;

verus! {

#[verifier::external_type_specification]
pub struct ExSeekFrom(SeekFrom);

/// The index at which a cursor at `pos` stands in `len` bytes: `pos`, or the
/// end where `pos` lies beyond it.
pub open spec fn clamped(pos: u64, len: nat) -> nat {
    if pos <= len {
        pos as nat
    } else {
        len
    }
}

/// The bytes from the cursor to the end.
pub open spec fn remaining(data: Seq<u8>, pos: u64) -> Seq<u8> {
    data.skip(clamped(pos, data.len()) as int)
}

/// The number of bytes that a transfer of at most `want` bytes moves when
/// `room` bytes lie between the cursor and the end.
pub open spec fn moved(want: nat, room: nat) -> nat {
    if want <= room {
        want
    } else {
        room
    }
}

/// A caller's buffer after a read into it: the bytes read, then what the
/// buffer held behind them.
pub open spec fn after_read(buf: Seq<u8>, data: Seq<u8>, pos: u64) -> Seq<u8> {
    let count = moved(buf.len(), remaining(data, pos).len());
    remaining(data, pos).take(count as int) + buf.skip(count as int)
}

/// A fixed range after a write of `buf` at `pos`: as many bytes of `buf` as
/// fit between the cursor and the end replace what was there.
pub open spec fn after_fixed_write(data: Seq<u8>, pos: u64, buf: Seq<u8>) -> Seq<u8> {
    let at = clamped(pos, data.len());
    let count = moved(buf.len(), remaining(data, pos).len());
    data.take(at as int) + buf.take(count as int) + data.skip((at + count) as int)
}

/// A growing buffer after a write of `buf` at `pos`: `buf` lies at `pos`,
/// zeros fill a gap between the old end and `pos`, and every other byte
/// stays.
pub open spec fn after_grow_write(data: Seq<u8>, pos: u64, buf: Seq<u8>) -> Seq<u8> {
    let end = pos + buf.len();
    let len = if end <= data.len() {
        data.len()
    } else {
        end as nat
    };
    Seq::new(
        len,
        |i: int|
            if pos <= i < end {
                buf[i - pos]
            } else if i < data.len() {
                data[i]
            } else {
                0u8
            },
    )
}

/// The position that a seek asks for, where it is one: an offset from the
/// start, from the end or from the cursor that leads to no negative position
/// and to none above `u64::MAX`.
pub open spec fn seek_target(len: nat, pos: u64, to: SeekFrom) -> Option<u64> {
    let target: int = match to {
        SeekFrom::Start(offset) => offset as int,
        SeekFrom::End(offset) => len + offset,
        SeekFrom::Current(offset) => pos + offset,
    };
    if 0 <= target <= u64::MAX {
        Some(target as u64)
    } else {
        None
    }
}

/// How far writes have reached into a fixed range of `size` bytes after a
/// write of `len` bytes at `pos`, where they had reached `reach` before: the
/// end of what this write stored, where that lies further.
pub open spec fn reach_after(reach: nat, size: nat, pos: u64, len: nat) -> nat {
    let at = clamped(pos, size);
    let count = moved(len, (size - at) as nat);
    if count > 0 && at + count > reach {
        at + count
    } else {
        reach
    }
}

/// Two writes into a fixed range, the second where the first ended, reach
/// as far as one write of both buffers, as long as the first fits.
pub proof fn lemma_fixed_reach_joins(reach: nat, size: nat, pos: u64, first: nat, second: nat)
    requires
        first <= size - clamped(pos, size),
        pos + first <= u64::MAX,
    ensures
        reach_after(reach_after(reach, size, pos, first), size, (pos + first) as u64, second)
            == reach_after(reach, size, pos, first + second),
{
}

/// Two writes into a fixed range, the second where the first ended, leave
/// what one write of both buffers leaves, as long as the first fits.
pub proof fn lemma_fixed_writes_join(data: Seq<u8>, pos: u64, first: Seq<u8>, second: Seq<u8>)
    requires
        first.len() <= remaining(data, pos).len(),
        pos + first.len() <= u64::MAX,
    ensures
        after_fixed_write(after_fixed_write(data, pos, first), (pos + first.len()) as u64, second)
            == after_fixed_write(data, pos, first + second),
{
    assert(after_fixed_write(
        after_fixed_write(data, pos, first),
        (pos + first.len()) as u64,
        second,
    ) =~= after_fixed_write(data, pos, first + second));
}

/// A fixed range takes no more than the room behind its cursor: what a
/// buffer holds beyond that changes nothing.
pub proof fn lemma_fixed_write_ignores_overflow(
    data: Seq<u8>,
    pos: u64,
    buf: Seq<u8>,
    more: Seq<u8>,
)
    requires
        buf.len() >= remaining(data, pos).len(),
    ensures
        after_fixed_write(data, pos, buf + more) == after_fixed_write(data, pos, buf),
{
    assert(after_fixed_write(data, pos, buf + more) =~= after_fixed_write(data, pos, buf));
}

/// Two writes into a growing buffer, the second where the first ended, leave
/// what one write of both buffers leaves.
pub proof fn lemma_grow_writes_join(data: Seq<u8>, pos: u64, first: Seq<u8>, second: Seq<u8>)
    requires
        pos + first.len() <= u64::MAX,
    ensures
        after_grow_write(after_grow_write(data, pos, first), (pos + first.len()) as u64, second)
            == after_grow_write(data, pos, first + second),
{
    assert(after_grow_write(
        after_grow_write(data, pos, first),
        (pos + first.len()) as u64,
        second,
    ) =~= after_grow_write(data, pos, first + second));
}

/// Copies `count` bytes of `src`, from index `from` on, over `dest` from
/// index `at` on.
pub(crate) fn copy_bytes(dest: &mut [u8], at: usize, src: &[u8], from: usize, count: usize)
    requires
        at + count <= old(dest)@.len(),
        from + count <= src@.len(),
    ensures
        final(dest)@ == old(dest)@.take(at as int) + src@.subrange(from as int, from + count)
            + old(dest)@.skip(at + count),
{
    let dest_len = dest.len();
    let src_len = src.len();
    let mut done: usize = 0;
    while done < count
        invariant
            done <= count,
            at + count <= dest_len,
            from + count <= src_len,
            src_len == src@.len(),
            dest_len == dest@.len(),
            dest@.len() == old(dest)@.len(),
            forall|i: int| at <= i < at + done ==> #[trigger] dest@[i] == src@[i - at + from],
            forall|i: int|
                0 <= i < dest@.len() && !(at <= i < at + done) ==> #[trigger] dest@[i] == old(
                    dest,
                )@[i],
        decreases count - done,
    {
        dest[at + done] = src[from + done];
        done = done + 1;
    }
    assert(dest@ =~= old(dest)@.take(at as int) + src@.subrange(from as int, from + count)
        + old(dest)@.skip(at + count));
}

/// Reads from `data` at `pos` into `buf` and moves `pos` behind what was
/// read.
fn read_at(data: &[u8], pos: &mut u64, buf: &mut [u8]) -> (count: usize)
    ensures
        count == moved(old(buf)@.len(), remaining(data@, *old(pos)).len()),
        final(buf)@ == after_read(old(buf)@, data@, *old(pos)),
        *final(pos) == *old(pos) + count,
{
    let len = data.len();
    let at: usize = if *pos <= len as u64 {
        *pos as usize
    } else {
        len
    };
    let room = len - at;
    let count = if buf.len() <= room {
        buf.len()
    } else {
        room
    };
    copy_bytes(buf, 0, data, at, count);
    *pos = *pos + count as u64;
    assert(buf@ =~= after_read(old(buf)@, data@, *old(pos)));
    count
}

/// Moves `pos` to where `to` asks, if that is a position.
fn seek_in(len: usize, pos: &mut u64, to: SeekFrom) -> (target: Option<u64>)
    ensures
        target == seek_target(len as nat, *old(pos), to),
        *final(pos) == (match target {
            Some(reached) => reached,
            None => *old(pos),
        }),
{
    let (base, offset): (u64, i64) = match to {
        SeekFrom::Start(offset) => {
            *pos = offset;
            return Some(offset);
        },
        SeekFrom::End(offset) => (len as u64, offset),
        SeekFrom::Current(offset) => (*pos, offset),
    };
    let target = if offset >= 0 {
        let forward = offset as u64;
        if forward <= u64::MAX - base {
            Some(base + forward)
        } else {
            None
        }
    } else {
        let back = (-(offset + 1)) as u64 + 1;
        if back <= base {
            Some(base - back)
        } else {
            None
        }
    };
    if let Some(reached) = target {
        *pos = reached;
    }
    target
}

/// A cursor over a borrowed range of bytes, for reading.
pub struct SliceCursor {
    data: &'static [u8],
    pos: u64,
}

impl SliceCursor {
    /// The bytes of the range.
    pub closed spec fn contents(&self) -> Seq<u8> {
        self.data@
    }

    /// Where the next read starts.
    pub closed spec fn position(&self) -> u64 {
        self.pos
    }

    /// A cursor at the start of `data`.
    pub fn new(data: &'static [u8]) -> (cursor: SliceCursor)
        ensures
            cursor.contents() == data@,
            cursor.position() == 0,
    {
        SliceCursor { data, pos: 0 }
    }

    /// Copies into `buf` the bytes from the cursor on, as many as `buf`
    /// holds or as are left, and moves the cursor behind them.
    pub fn read(&mut self, buf: &mut [u8]) -> (count: usize)
        ensures
            count == moved(old(buf)@.len(), remaining(old(self).contents(), old(self).position()).len()),
            final(buf)@ == after_read(old(buf)@, old(self).contents(), old(self).position()),
            final(self).contents() == old(self).contents(),
            final(self).position() == old(self).position() + count,
    {
        read_at(self.data, &mut self.pos, buf)
    }

    /// Moves the cursor to the position `to` asks for and returns it. Where
    /// `to` asks for none, the cursor stays and `None` is returned.
    pub fn seek(&mut self, to: SeekFrom) -> (target: Option<u64>)
        ensures
            target == seek_target(old(self).contents().len(), old(self).position(), to),
            final(self).contents() == old(self).contents(),
            final(self).position() == (match target {
                Some(reached) => reached,
                None => old(self).position(),
            }),
    {
        seek_in(self.data.len(), &mut self.pos, to)
    }
}

/// A cursor over a borrowed range of bytes that can be overwritten and
/// cannot grow. It keeps how far into the range writes have reached: the
/// bytes before that mark are what was written.
pub struct FixedCursor {
    data: &'static mut [u8],
    pos: u64,
    reached: usize,
}

impl FixedCursor {
    /// The bytes of the whole range.
    pub closed spec fn contents(&self) -> Seq<u8> {
        self.data@
    }

    /// Where the next write starts.
    pub closed spec fn position(&self) -> u64 {
        self.pos
    }

    /// How far into the range writes have reached: the end of the write
    /// that ended last in the range, and 0 before any write.
    pub closed spec fn reach(&self) -> nat {
        if self.reached <= self.data@.len() {
            self.reached as nat
        } else {
            self.data@.len()
        }
    }

    /// What was written: the bytes of the range up to where writes have
    /// reached.
    pub open spec fn written(&self) -> Seq<u8> {
        self.contents().take(self.reach() as int)
    }

    /// A range in memory has no more bytes than `usize` counts, and writes
    /// reach no further than its end.
    pub proof fn lemma_contents_bounded(&self)
        ensures
            self.reach() <= self.contents().len() <= usize::MAX,
    {
        broadcast use vstd::slice::group_slice_axioms;

        assert(self.data@.len() == self.data.len());
    }

    /// A cursor at the start of `data`, into which nothing was written yet.
    pub fn new(data: &'static mut [u8]) -> (cursor: FixedCursor)
        ensures
            cursor.contents() == old(data)@,
            cursor.position() == 0,
            cursor.reach() == 0,
    {
        FixedCursor { data, pos: 0, reached: 0 }
    }

    /// Writes the bytes of `buf` over the range from the cursor on, as many
    /// as fit before its end, and moves the cursor behind them. The range
    /// keeps its length.
    pub fn write(&mut self, buf: &[u8]) -> (count: usize)
        ensures
            count == moved(buf@.len(), remaining(old(self).contents(), old(self).position()).len()),
            final(self).contents() == after_fixed_write(
                old(self).contents(),
                old(self).position(),
                buf@,
            ),
            final(self).position() == old(self).position() + count,
            final(self).reach() == reach_after(
                old(self).reach(),
                old(self).contents().len(),
                old(self).position(),
                buf@.len(),
            ),
    {
        let len = self.data.len();
        let at: usize = if self.pos <= len as u64 {
            self.pos as usize
        } else {
            len
        };
        let room = len - at;
        let count = if buf.len() <= room {
            buf.len()
        } else {
            room
        };
        copy_bytes(self.data, at, buf, 0, count);
        self.pos = self.pos + count as u64;
        if count > 0 && at + count > self.reached {
            self.reached = at + count;
        }
        assert(self.data@ =~= after_fixed_write(old(self).contents(), old(self).position(), buf@));
        count
    }

    /// Moves the cursor to the position `to` asks for and returns it. Where
    /// `to` asks for none, the cursor stays and `None` is returned. Nothing
    /// is written.
    pub fn seek(&mut self, to: SeekFrom) -> (target: Option<u64>)
        ensures
            target == seek_target(old(self).contents().len(), old(self).position(), to),
            final(self).contents() == old(self).contents(),
            final(self).reach() == old(self).reach(),
            final(self).position() == (match target {
                Some(reached) => reached,
                None => old(self).position(),
            }),
    {
        seek_in(self.data.len(), &mut self.pos, to)
    }

    /// What was written, for reading from its start: the range up to where
    /// writes have reached, lent in place.
    pub fn into_reader(self) -> (reader: SliceCursor)
        ensures
            reader.contents() == self.written(),
            reader.position() == 0,
    {
        let data: &'static [u8] = self.data;
        let end = if self.reached <= data.len() {
            self.reached
        } else {
            data.len()
        };
        SliceCursor { data: slice_subrange(data, 0, end), pos: 0 }
    }
}

/// A cursor over a buffer of its own that grows as it is written.
pub struct VecCursor {
    data: Vec<u8>,
    pos: u64,
}

impl VecCursor {
    /// The bytes of the buffer.
    pub closed spec fn contents(&self) -> Seq<u8> {
        self.data@
    }

    /// Where the next read or write starts.
    pub closed spec fn position(&self) -> u64 {
        self.pos
    }

    /// A cursor at the start of `data`.
    pub fn new(data: Vec<u8>) -> (cursor: VecCursor)
        ensures
            cursor.contents() == data@,
            cursor.position() == 0,
    {
        VecCursor { data, pos: 0 }
    }

    /// Copies into `buf` the bytes from the cursor on, as many as `buf`
    /// holds or as are left, and moves the cursor behind them.
    pub fn read(&mut self, buf: &mut [u8]) -> (count: usize)
        ensures
            count == moved(old(buf)@.len(), remaining(old(self).contents(), old(self).position()).len()),
            final(buf)@ == after_read(old(buf)@, old(self).contents(), old(self).position()),
            final(self).contents() == old(self).contents(),
            final(self).position() == old(self).position() + count,
    {
        read_at(self.data.as_slice(), &mut self.pos, buf)
    }

    /// Writes all of `buf` at the cursor and moves the cursor behind it. The
    /// buffer grows where `buf` reaches beyond its end, and a gap between its
    /// end and the cursor is filled with zeros.
    ///
    /// Where the end of the write would lie above `usize::MAX` nothing is
    /// written and `None` is returned.
    pub fn write(&mut self, buf: &[u8]) -> (count: Option<usize>)
        ensures
            match count {
                Some(count) => {
                    &&& count == buf@.len()
                    &&& old(self).position() + buf@.len() <= usize::MAX
                    &&& final(self).contents() == after_grow_write(
                        old(self).contents(),
                        old(self).position(),
                        buf@,
                    )
                    &&& final(self).position() == old(self).position() + buf@.len()
                },
                None => {
                    &&& old(self).position() + buf@.len() > usize::MAX
                    &&& *final(self) == *old(self)
                },
            },
    {
        let len = buf.len();
        if self.pos > (usize::MAX - len) as u64 {
            return None;
        }
        let at = self.pos as usize;
        while self.data.len() < at
            invariant
                self.pos == old(self).pos,
                old(self).data@.len() <= self.data@.len() || self.data@ == old(self).data@,
                self.data@.len() <= at || self.data@ == old(self).data@,
                forall|i: int| 0 <= i < old(self).data@.len() ==> #[trigger] self.data@[i] == old(
                    self,
                ).data@[i],
                forall|i: int| old(self).data@.len() <= i < self.data@.len() ==> #[trigger] self.data@[i] == 0u8,
            decreases at - self.data@.len(),
        {
            self.data.push(0);
        }
        let ghost padded = self.data@;
        let room = self.data.len() - at;
        let over = if len <= room {
            len
        } else {
            room
        };
        copy_bytes(self.data.as_mut_slice(), at, buf, 0, over);
        let mut done = over;
        while done < len
            invariant
                over <= done <= len,
                len == buf@.len(),
                at + len <= usize::MAX,
                self.pos == old(self).pos,
                at + over <= padded.len(),
                over < len ==> padded.len() == at + over && self.data@.len() == at + done,
                over == len ==> self.data@.len() == padded.len(),
                forall|i: int| at <= i < at + done ==> #[trigger] self.data@[i] == buf@[i - at],
                forall|i: int|
                    0 <= i < padded.len() && !(at <= i < at + done) ==> #[trigger] self.data@[i]
                        == padded[i],
            decreases len - done,
        {
            self.data.push(buf[done]);
            done = done + 1;
        }
        self.pos = (at + len) as u64;
        assert(self.data@ =~= after_grow_write(old(self).contents(), old(self).position(), buf@));
        Some(len)
    }

    /// Moves the cursor to the position `to` asks for and returns it. Where
    /// `to` asks for none, the cursor stays and `None` is returned.
    pub fn seek(&mut self, to: SeekFrom) -> (target: Option<u64>)
        ensures
            target == seek_target(old(self).contents().len(), old(self).position(), to),
            final(self).contents() == old(self).contents(),
            final(self).position() == (match target {
                Some(reached) => reached,
                None => old(self).position(),
            }),
    {
        seek_in(self.data.len(), &mut self.pos, to)
    }

    /// The same buffer, from its start.
    pub fn rewound(self) -> (cursor: VecCursor)
        ensures
            cursor.contents() == self.contents(),
            cursor.position() == 0,
    {
        VecCursor { data: self.data, pos: 0 }
    }
}

} // verus!
