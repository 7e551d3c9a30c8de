//! Byte sources and sinks: a file, a fixed range of memory or a growing
//! buffer behind one set of operations, and the calls that connect a sink to
//! a source.
//!
//! The file is whatever the caller opens; it is reached through
//! `std::io::Read`, `Write` and `Seek` alone, and nothing is known of what it
//! returns beyond what those traits promise.

use crate::cursor::after_fixed_write;
use crate::cursor::after_grow_write;
use crate::cursor::after_read;
use crate::cursor::moved;
use crate::cursor::reach_after;
use crate::cursor::remaining;
use crate::cursor::seek_target;
use crate::cursor::FixedCursor;
use crate::cursor::SliceCursor;
use crate::cursor::VecCursor;
use crate::errors::or_report;
use crate::errors::reported;
use crate::errors::set_err;
use crate::errors::ErrorTable;
use std::io::Read;
use std::io::Seek;
use std::io::SeekFrom;
use std::io::Write;
use vstd::prelude::*;
use vstd::string::StringExecFns;

verus! {

#[verifier::external_type_specification]
#[verifier::external_body]
pub struct ExIoError(std::io::Error);

/// One `Read::read` on a file. The documentation of that method promises
/// that a count it returns is no more than the length of the buffer.
#[verifier::external_body]
fn file_read<F: Read>(file: &mut F, buf: &mut [u8]) -> (taken: Result<usize, std::io::Error>)
    ensures
        final(buf)@.len() == old(buf)@.len(),
        taken matches Ok(count) ==> count <= old(buf)@.len(),
{
    file.read(buf)
}

/// One `Write::write` on a file. The documentation of that method promises
/// that a count it returns is no more than the length of the buffer.
#[verifier::external_body]
fn file_write<F: Write>(file: &mut F, buf: &[u8]) -> (put: Result<usize, std::io::Error>)
    ensures
        put matches Ok(count) ==> count <= buf@.len(),
{
    file.write(buf)
}

/// One `Write::write_all` on a file: all of `buf` or a failure.
#[verifier::external_body]
fn file_write_all<F: Write>(file: &mut F, buf: &[u8]) -> Result<(), std::io::Error> {
    file.write_all(buf)
}

/// One `Write::flush` on a file.
#[verifier::external_body]
fn file_flush<F: Write>(file: &mut F) -> Result<(), std::io::Error> {
    file.flush()
}

/// One `Seek::seek` on a file.
#[verifier::external_body]
fn file_seek<F: Seek>(file: &mut F, to: SeekFrom) -> Result<u64, std::io::Error> {
    file.seek(to)
}

/// The text of a failure, as `Display` writes it.
#[verifier::external_body]
pub(crate) fn text_of(failure: &std::io::Error) -> String {
    failure.to_string()
}

/// `std::io::Error::new` with the kind `InvalidInput` and the message: the
/// failure of an operation that was asked for what cannot be.
#[verifier::external_body]
fn invalid_input(message: &str) -> std::io::Error {
    std::io::Error::new(std::io::ErrorKind::InvalidInput, message)
}

/// The message of a seek to a position that is none.
pub const INVALID_SEEK: &'static str = "invalid seek to a negative or overflowing position";

/// The message of a write whose end lies above `usize::MAX`.
pub const TOO_LARGE: &'static str = "cursor position exceeds maximum possible vector length";

/// The message of a write that found no room for all its bytes.
pub const WRITE_ZERO: &'static str = "failed to write whole buffer";

/// A byte source: a file, a fixed range of memory, or a buffer of its own.
pub enum ReadWrap<F> {
    File(F),
    Buf(SliceCursor),
    Vec(VecCursor),
}

/// A byte sink: a file, a fixed range of memory, or a buffer that grows.
pub enum WriteWrap<F> {
    File(F),
    Buf(FixedCursor),
    Expanding(VecCursor),
}

impl<F> ReadWrap<F> {
    /// The bytes of a source in memory; of a file nothing is known, and this
    /// is empty.
    pub open spec fn contents(&self) -> Seq<u8> {
        match self {
            ReadWrap::File(_) => Seq::empty(),
            ReadWrap::Buf(cursor) => cursor.contents(),
            ReadWrap::Vec(cursor) => cursor.contents(),
        }
    }

    /// The position of a source in memory; 0 for a file.
    pub open spec fn position(&self) -> u64 {
        match self {
            ReadWrap::File(_) => 0,
            ReadWrap::Buf(cursor) => cursor.position(),
            ReadWrap::Vec(cursor) => cursor.position(),
        }
    }

    /// Whether `other` is a source of the same kind over the same bytes.
    pub open spec fn same_store(&self, other: &ReadWrap<F>) -> bool {
        &&& self is File <==> other is File
        &&& self is Buf <==> other is Buf
        &&& self.contents() == other.contents()
    }

    /// What is left to read of a source in memory.
    pub open spec fn unread(&self) -> Seq<u8> {
        remaining(self.contents(), self.position())
    }

    /// Whether the source is a file.
    pub fn is_file(&self) -> (file: bool)
        ensures
            file == (self is File),
    {
        matches!(self, ReadWrap::File(_))
    }
}

impl<F> WriteWrap<F> {
    /// The bytes of a sink in memory; of a file nothing is known, and this
    /// is empty.
    pub open spec fn contents(&self) -> Seq<u8> {
        match self {
            WriteWrap::File(_) => Seq::empty(),
            WriteWrap::Buf(cursor) => cursor.contents(),
            WriteWrap::Expanding(cursor) => cursor.contents(),
        }
    }

    /// The position of a sink in memory; 0 for a file.
    pub open spec fn position(&self) -> u64 {
        match self {
            WriteWrap::File(_) => 0,
            WriteWrap::Buf(cursor) => cursor.position(),
            WriteWrap::Expanding(cursor) => cursor.position(),
        }
    }

    /// Whether `other` is a sink of the same kind.
    pub open spec fn same_kind(&self, other: &WriteWrap<F>) -> bool {
        &&& self is File <==> other is File
        &&& self is Buf <==> other is Buf
    }

    /// The bytes that a sink in memory can still take as a whole: those
    /// before the end of a fixed range, and those before a growing buffer
    /// would pass `usize::MAX`.
    pub open spec fn room(&self) -> nat {
        match self {
            WriteWrap::File(_) => 0,
            WriteWrap::Buf(cursor) => remaining(cursor.contents(), cursor.position()).len(),
            WriteWrap::Expanding(cursor) => if cursor.position() <= usize::MAX {
                (usize::MAX - cursor.position()) as nat
            } else {
                0
            },
        }
    }

    /// What a sink in memory holds after it was asked to take all of `buf`.
    /// A fixed range takes what fits; a growing buffer takes all or, where
    /// that has no room, nothing. An empty `buf` changes nothing.
    pub open spec fn contents_with(&self, buf: Seq<u8>) -> Seq<u8> {
        match self {
            WriteWrap::File(_) => Seq::empty(),
            WriteWrap::Buf(cursor) => after_fixed_write(cursor.contents(), cursor.position(), buf),
            WriteWrap::Expanding(cursor) => if 0 < buf.len() <= self.room() {
                after_grow_write(cursor.contents(), cursor.position(), buf)
            } else {
                cursor.contents()
            },
        }
    }

    /// Where a sink in memory stands after it was asked to take all of
    /// `buf`: behind what it took.
    pub open spec fn position_with(&self, buf: Seq<u8>) -> u64 {
        match self {
            WriteWrap::File(_) => 0,
            WriteWrap::Buf(cursor) => (cursor.position() + moved(buf.len(), self.room())) as u64,
            WriteWrap::Expanding(cursor) => if buf.len() <= self.room() {
                (cursor.position() + buf.len()) as u64
            } else {
                cursor.position()
            },
        }
    }

    /// How far writes have reached into a sink in memory: the mark of a
    /// fixed range, and the length of a growing buffer.
    pub open spec fn reach(&self) -> nat {
        match self {
            WriteWrap::File(_) => 0,
            WriteWrap::Buf(cursor) => cursor.reach(),
            WriteWrap::Expanding(cursor) => cursor.contents().len(),
        }
    }

    /// How far writes have reached once a sink in memory was asked to take
    /// all of `buf`.
    pub open spec fn reach_with(&self, buf: Seq<u8>) -> nat {
        match self {
            WriteWrap::File(_) => 0,
            WriteWrap::Buf(cursor) => reach_after(
                cursor.reach(),
                cursor.contents().len(),
                cursor.position(),
                buf.len(),
            ),
            WriteWrap::Expanding(_) => self.contents_with(buf).len(),
        }
    }

    /// What was written to a sink in memory: its bytes up to where writes
    /// have reached. Of a growing buffer that is all it holds.
    pub open spec fn written(&self) -> Seq<u8> {
        self.contents().take(self.reach() as int)
    }

    /// What is reported where a sink in memory has no room for a buffer.
    pub open spec fn no_room_text(&self) -> Seq<char> {
        if self is Expanding {
            TOO_LARGE@
        } else {
            WRITE_ZERO@
        }
    }
}

impl<F: Read> Read for ReadWrap<F> {
    /// Reads into `buf` from the source and moves behind what was read.
    ///
    /// A source in memory never fails: it gives the bytes from its position
    /// on, as many as `buf` holds or as are left. A file gives what it gives.
    fn read(&mut self, buf: &mut [u8]) -> (taken: std::io::Result<usize>)
        ensures
            final(buf)@.len() == old(buf)@.len(),
            final(self).same_store(old(self)),
            taken matches Ok(count) ==> count <= old(buf)@.len(),
            !(*old(self) is File) ==> {
                &&& taken matches Ok(count)
                &&& count == moved(old(buf)@.len(), old(self).unread().len())
                &&& final(buf)@ == after_read(old(buf)@, old(self).contents(), old(self).position())
                &&& final(self).position() == old(self).position() + count
            },
    {
        match self {
            ReadWrap::File(x) => file_read(x, buf),
            ReadWrap::Buf(x) => Ok(x.read(buf)),
            ReadWrap::Vec(x) => Ok(x.read(buf)),
        }
    }
}

impl<F: Seek> Seek for ReadWrap<F> {
    /// Moves the source to the position that `pos` asks for.
    ///
    /// A source in memory fails where `pos` asks for a negative position or
    /// one above `u64::MAX`, and then stays where it is.
    fn seek(&mut self, pos: SeekFrom) -> (reached: std::io::Result<u64>)
        ensures
            final(self).same_store(old(self)),
            !(*old(self) is File) ==> {
                let target = seek_target(old(self).contents().len(), old(self).position(), pos);
                match target {
                    Some(position) => reached == Ok::<u64, std::io::Error>(position)
                        && final(self).position() == position,
                    None => reached is Err && final(self).position() == old(self).position(),
                }
            },
    {
        match self {
            ReadWrap::File(x) => file_seek(x, pos),
            ReadWrap::Buf(x) => match x.seek(pos) {
                Some(position) => Ok(position),
                None => Err(invalid_input(INVALID_SEEK)),
            },
            ReadWrap::Vec(x) => match x.seek(pos) {
                Some(position) => Ok(position),
                None => Err(invalid_input(INVALID_SEEK)),
            },
        }
    }
}

impl<F: Write> Write for WriteWrap<F> {
    /// Writes bytes of `buf` at the sink's position and moves behind them.
    ///
    /// A fixed range takes as many as fit before its end, which may be none.
    /// A growing buffer takes all, and fails only where the end of the write
    /// would lie above `usize::MAX`. A file takes what it takes.
    fn write(&mut self, buf: &[u8]) -> (put: std::io::Result<usize>)
        ensures
            final(self).same_kind(old(self)),
            put matches Ok(count) ==> count <= buf@.len(),
            *old(self) is Buf ==> {
                &&& put matches Ok(count)
                &&& count == moved(
                    buf@.len(),
                    remaining(old(self).contents(), old(self).position()).len(),
                )
                &&& final(self).contents() == after_fixed_write(
                    old(self).contents(),
                    old(self).position(),
                    buf@,
                )
                &&& final(self).position() == old(self).position() + count
                &&& final(self).reach() == old(self).reach_with(buf@)
            },
            *old(self) is Expanding ==> {
                if old(self).position() + buf@.len() <= usize::MAX {
                    &&& put matches Ok(count)
                    &&& count == buf@.len()
                    &&& final(self).contents() == after_grow_write(
                        old(self).contents(),
                        old(self).position(),
                        buf@,
                    )
                    &&& final(self).position() == old(self).position() + buf@.len()
                } else {
                    &&& put is Err
                    &&& *final(self) == *old(self)
                }
            },
    {
        match self {
            WriteWrap::File(x) => file_write(x, buf),
            WriteWrap::Buf(x) => Ok(x.write(buf)),
            WriteWrap::Expanding(x) => match x.write(buf) {
                Some(count) => Ok(count),
                None => Err(invalid_input(TOO_LARGE)),
            },
        }
    }

    /// Hands on what the sink holds back. Memory holds nothing back.
    fn flush(&mut self) -> (done: std::io::Result<()>)
        ensures
            final(self).same_kind(old(self)),
            !(*old(self) is File) ==> done is Ok && *final(self) == *old(self),
    {
        match self {
            WriteWrap::File(x) => file_flush(x),
            WriteWrap::Buf(_) => Ok(()),
            WriteWrap::Expanding(_) => Ok(()),
        }
    }
}

impl<F: Seek> Seek for WriteWrap<F> {
    /// Moves the sink to the position that `pos` asks for.
    ///
    /// A sink in memory fails where `pos` asks for a negative position or
    /// one above `u64::MAX`, and then stays where it is.
    fn seek(&mut self, pos: SeekFrom) -> (reached: std::io::Result<u64>)
        ensures
            final(self).same_kind(old(self)),
            !(*old(self) is File) ==> {
                let target = seek_target(old(self).contents().len(), old(self).position(), pos);
                &&& final(self).contents() == old(self).contents()
                &&& final(self).reach() == old(self).reach()
                &&& match target {
                    Some(position) => reached == Ok::<u64, std::io::Error>(position)
                        && final(self).position() == position,
                    None => reached is Err && final(self).position() == old(self).position(),
                }
            },
    {
        match self {
            WriteWrap::File(x) => file_seek(x, pos),
            WriteWrap::Buf(x) => match x.seek(pos) {
                Some(position) => Ok(position),
                None => Err(invalid_input(INVALID_SEEK)),
            },
            WriteWrap::Expanding(x) => match x.seek(pos) {
                Some(position) => Ok(position),
                None => Err(invalid_input(INVALID_SEEK)),
            },
        }
    }
}

impl<F: Write> WriteWrap<F> {
    /// Writes all of `buf` at the sink's position, or fails with a message.
    ///
    /// A fixed range that has no room for all of `buf` takes what fits and
    /// fails with `failed to write whole buffer`. A growing buffer takes
    /// all, and fails, unchanged, only where the end of the write would lie
    /// above `usize::MAX`. A file takes all or fails with its own message.
    /// An empty `buf` succeeds and changes nothing.
    pub fn put_all(&mut self, buf: &[u8]) -> (done: Result<(), String>)
        ensures
            final(self).same_kind(old(self)),
            buf@.len() == 0 ==> done is Ok && *final(self) == *old(self),
            !(*old(self) is File) ==> {
                &&& done is Ok <==> buf@.len() <= old(self).room()
                &&& done matches Err(message) ==> message@ == old(self).no_room_text()
                &&& final(self).contents() == old(self).contents_with(buf@)
                &&& final(self).position() == old(self).position_with(buf@)
                &&& final(self).reach() == old(self).reach_with(buf@)
            },
    {
        if buf.len() == 0 {
            proof {
                let kept = *old(self);
                assert(kept.contents_with(buf@) =~= kept.contents());
            }
            return Ok(());
        }
        match self {
            WriteWrap::File(x) => described(file_write_all(x, buf)),
            WriteWrap::Buf(x) => {
                if x.write(buf) == buf.len() {
                    Ok(())
                } else {
                    Err(String::from_str(WRITE_ZERO))
                }
            },
            WriteWrap::Expanding(x) => match x.write(buf) {
                Some(_) => Ok(()),
                None => Err(String::from_str(TOO_LARGE)),
            },
        }
    }
}

/// A failure as its text.
fn described<T>(outcome: Result<T, std::io::Error>) -> (told: Result<T, String>)
    ensures
        match outcome {
            Ok(got) => told == Ok::<T, String>(got),
            Err(_) => told is Err,
        },
{
    match outcome {
        Ok(got) => Ok(got),
        Err(why) => Err(text_of(&why)),
    }
}

/// The source for a file that was opened for reading, or `None` where the
/// opening failed: the failure's message is then stored for `thread`.
pub fn libimage_open_file_r<F>(
    opened: Result<F, String>,
    errors: &mut ErrorTable,
    thread: u64,
) -> (source: Option<ReadWrap<F>>)
    ensures
        match opened {
            Ok(file) => source == Some(ReadWrap::File(file)) && final(errors)@ == old(errors)@,
            Err(message) => source is None && final(errors)@ == old(errors)@.insert(
                thread,
                message@,
            ),
        },
{
    match or_report(opened, errors, thread) {
        Some(file) => Some(ReadWrap::File(file)),
        None => None,
    }
}

/// The sink for a file that was opened for writing, or `None` where the
/// opening failed: the failure's message is then stored for `thread`.
pub fn libimage_open_file_w<F>(
    opened: Result<F, String>,
    errors: &mut ErrorTable,
    thread: u64,
) -> (sink: Option<WriteWrap<F>>)
    ensures
        match opened {
            Ok(file) => sink == Some(WriteWrap::File(file)) && final(errors)@ == old(errors)@,
            Err(message) => sink is None && final(errors)@ == old(errors)@.insert(
                thread,
                message@,
            ),
        },
{
    match or_report(opened, errors, thread) {
        Some(file) => Some(WriteWrap::File(file)),
        None => None,
    }
}

/// The source that reads the file behind a descriptor.
pub fn libimage_fd_r<F>(file: F) -> (source: ReadWrap<F>)
    ensures
        source == ReadWrap::File(file),
{
    ReadWrap::File(file)
}

/// The sink that writes the file behind a descriptor.
pub fn libimage_fd_w<F>(file: F) -> (sink: WriteWrap<F>)
    ensures
        sink == WriteWrap::File(file),
{
    WriteWrap::File(file)
}

/// A source over the caller's range `buffer`, at its start.
pub fn libimage_open_buf_r<F>(buffer: &'static [u8]) -> (source: ReadWrap<F>)
    ensures
        source is Buf,
        source.contents() == buffer@,
        source.position() == 0,
{
    ReadWrap::Buf(SliceCursor::new(buffer))
}

/// A sink over the caller's range `buffer`, at its start, into which nothing
/// was written yet. The range never grows: what does not fit before its end
/// is not written.
pub fn libimage_open_buf_w<F>(buffer: &'static mut [u8]) -> (sink: WriteWrap<F>)
    ensures
        sink is Buf,
        sink.contents() == old(buffer)@,
        sink.position() == 0,
        sink.reach() == 0,
{
    WriteWrap::Buf(FixedCursor::new(buffer))
}

/// A sink over an empty buffer of its own that grows as it is written.
pub fn libimage_open_expanding_w<F>() -> (sink: WriteWrap<F>)
    ensures
        sink is Expanding,
        sink.contents() == Seq::<u8>::empty(),
        sink.position() == 0,
{
    WriteWrap::Expanding(VecCursor::new(Vec::new()))
}

/// Takes a source out of use. A file is closed by its own drop.
pub fn libimage_destroy_r<F>(read: ReadWrap<F>) {
}

/// Takes a sink out of use. A file is closed by its own drop.
pub fn libimage_destroy_w<F>(write: WriteWrap<F>) {
}

/// Whether `source` is what a sink in memory becomes: a source of the
/// matching kind over the bytes that were written, at their start.
pub open spec fn converted<F>(sink: WriteWrap<F>, source: ReadWrap<F>) -> bool {
    &&& sink is Buf <==> source is Buf
    &&& sink is Expanding <==> source is Vec
    &&& source.contents() == sink.written()
    &&& source.position() == 0
}

/// A source that a sink in memory became gives, by one read into a buffer
/// that is long enough, exactly the bytes that were written to the sink, in
/// order, and no more.
pub proof fn lemma_converted_sink_reads_back<F>(
    sink: WriteWrap<F>,
    source: ReadWrap<F>,
    buf: Seq<u8>,
)
    requires
        !(sink is File),
        converted(sink, source),
        buf.len() >= sink.written().len(),
    ensures
        source.unread() == sink.written(),
        moved(buf.len(), source.unread().len()) == sink.written().len(),
        after_read(buf, source.contents(), source.position()).take(sink.written().len() as int)
            == sink.written(),
{
    let held = sink.written();
    assert(source.unread() =~= held);
    assert(after_read(buf, source.contents(), source.position()).take(held.len() as int) =~= held);
}

/// A sink in memory into which nothing was written yet and that stands at
/// its start holds, after one write of bytes for which it has room, exactly
/// those bytes as what was written.
pub proof fn lemma_fresh_sink_holds_what_was_written<F>(
    sink: WriteWrap<F>,
    after: WriteWrap<F>,
    written: Seq<u8>,
)
    requires
        !(sink is File),
        sink.position() == 0,
        sink.reach() == 0,
        written.len() <= sink.room(),
        after.same_kind(&sink),
        after.contents() == sink.contents_with(written),
        after.reach() == sink.reach_with(written),
    ensures
        after.written() == written,
{
    assert(after.written() =~= written);
}

/// The source that reads what was written to a sink in memory, from its
/// start.
///
/// The sink is used up whatever comes of it. A growing buffer becomes a
/// source over all it holds, and a fixed range one over its bytes up to where
/// writes have reached, in place. A file does not: the message
/// `Cannot cheaply convert files` is stored for `thread`. Without a sink the
/// message is `'write' is null`.
pub fn libimage_w_into_r<F>(
    write: Option<WriteWrap<F>>,
    errors: &mut ErrorTable,
    thread: u64,
) -> (source: Option<ReadWrap<F>>)
    ensures
        match write {
            None => source is None && final(errors)@ == old(errors)@.insert(
                thread,
                "'write' is null"@,
            ),
            Some(WriteWrap::File(_)) => source is None && final(errors)@ == old(errors)@.insert(
                thread,
                "Cannot cheaply convert files"@,
            ),
            Some(sink) => {
                &&& source is Some
                &&& converted(sink, source->0)
                &&& final(errors)@ == old(errors)@
            },
        },
{
    let Some(write) = write else {
        set_err(errors, thread, String::from_str("'write' is null"));
        return None;
    };
    match write {
        WriteWrap::File(_) => {
            set_err(errors, thread, String::from_str("Cannot cheaply convert files"));
            None
        },
        WriteWrap::Buf(x) => Some(ReadWrap::Buf(x.into_reader())),
        WriteWrap::Expanding(x) => {
            assert(x.contents().take(x.contents().len() as int) =~= x.contents());
            Some(ReadWrap::Vec(x.rewound()))
        },
    }
}

/// The count of a read, or the sentinel 0 for a failure, whose message is
/// stored for `thread`.
pub fn poll_outcome(taken: Result<usize, String>, errors: &mut ErrorTable, thread: u64) -> (count:
    usize)
    ensures
        match taken {
            Ok(got) => count == got && final(errors)@ == old(errors)@,
            Err(message) => count == 0 && final(errors)@ == old(errors)@.insert(thread, message@),
        },
{
    match or_report(taken, errors, thread) {
        Some(got) => got,
        None => 0,
    }
}

/// Reads once from a source into `buf` and returns the number of bytes
/// read. Zero stands for the end of the source and for a failure alike.
///
/// A source in memory gives the bytes from its position on, as many as `buf`
/// holds or as are left, and stores no message. A file gives what it gives;
/// where it fails, the failure's text is stored for `thread`. Without a
/// source the message is `'read' is null`.
pub fn libimage_poll<F: Read>(
    read: Option<&mut ReadWrap<F>>,
    buf: &mut [u8],
    errors: &mut ErrorTable,
    thread: u64,
) -> (count: usize)
    ensures
        final(buf)@.len() == old(buf)@.len(),
        count <= old(buf)@.len(),
        match read {
            None => count == 0 && final(buf)@ == old(buf)@ && final(errors)@ == old(errors)@.insert(
                thread,
                "'read' is null"@,
            ),
            Some(source) => {
                &&& final(source).same_store(source)
                &&& if *source is File {
                    final(errors)@ == old(errors)@ || (count == 0 && reported(
                        old(errors)@,
                        final(errors)@,
                        thread,
                    ))
                } else {
                    &&& count == moved(old(buf)@.len(), source.unread().len())
                    &&& final(buf)@ == after_read(old(buf)@, source.contents(), source.position())
                    &&& final(source).position() == source.position() + count
                    &&& final(errors)@ == old(errors)@
                }
            },
        },
{
    let Some(read) = read else {
        set_err(errors, thread, String::from_str("'read' is null"));
        return 0;
    };
    let taken = described(read.read(buf));
    poll_outcome(taken, errors, thread)
}

} // verus!
