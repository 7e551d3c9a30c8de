//! Copying a source into a sink, chunk by chunk.

use crate::cursor::lemma_fixed_reach_joins;
use crate::cursor::lemma_fixed_write_ignores_overflow;
use crate::cursor::lemma_fixed_writes_join;
use crate::cursor::lemma_grow_writes_join;
use crate::errors::or_report;
use crate::errors::reported;
use crate::errors::set_err;
use crate::errors::ErrorTable;
use crate::stream::text_of;
use crate::stream::ReadWrap;
use crate::stream::WriteWrap;
use std::io::Read;
use std::io::Write;
use vstd::prelude::*;
use vstd::slice::slice_subrange;
use vstd::string::StringExecFns;

verus! {

/// The most bytes that are read from a source at once.
pub const PIPE_CHUNK: usize = 8192;

/// How far a copy has come.
#[derive(Clone, Copy, Debug, PartialEq, Eq, Structural)]
pub enum Piped {
    /// The copy is over: the source has ended (`true`) or a read or a write
    /// has failed (`false`).
    Done(bool),
    /// A chunk was copied and the source may hold more: call again.
    More,
}

/// The bytes of `room` that whole chunks fill.
pub open spec fn whole_chunks(room: nat) -> nat {
    (room / (PIPE_CHUNK as nat)) * (PIPE_CHUNK as nat)
}

/// The bytes of `data` that reach a sink in memory with `room` bytes of
/// room: all that fits, cut at the room of a fixed range (`fixed`), and cut
/// at the last whole chunk of a growing buffer, which takes a chunk whole or
/// not at all.
pub open spec fn delivered(data: Seq<u8>, room: nat, fixed: bool) -> Seq<u8> {
    if data.len() <= room || fixed {
        data
    } else {
        data.take(whole_chunks(room) as int)
    }
}

/// The number of bytes that a copy has read from a source in memory when it
/// ends: the chunks for which the sink has room and the one after them, or
/// all of `data` where that is less.
pub open spec fn consumed(data: Seq<u8>, room: nat) -> nat {
    if data.len() <= whole_chunks(room) + PIPE_CHUNK {
        data.len()
    } else {
        whole_chunks(room) + PIPE_CHUNK as nat
    }
}

/// Whether a copy that read `taken` from its source (a chunk, or the
/// message of the failed read) and found the sink `sink` and the messages
/// `errors` may leave `after` and `errors_after` and return `status`.
///
/// A failed read ends the copy with `Done(false)`, stores its message for
/// `thread` and writes nothing. An empty chunk ends it with `Done(true)` and
/// changes nothing. Any other chunk is written: the copy goes on, or the
/// write fails, which ends it with `Done(false)` and stores a message.
pub open spec fn forwarded<W>(
    sink: WriteWrap<W>,
    after: WriteWrap<W>,
    taken: Result<Seq<u8>, Seq<char>>,
    errors: Map<u64, Seq<char>>,
    errors_after: Map<u64, Seq<char>>,
    thread: u64,
    status: Piped,
) -> bool {
    &&& after.same_kind(&sink)
    &&& match taken {
        Err(message) => {
            &&& status == Piped::Done(false)
            &&& after == sink
            &&& errors_after == errors.insert(thread, message)
        },
        Ok(chunk) => if chunk.len() == 0 {
            &&& status == Piped::Done(true)
            &&& after == sink
            &&& errors_after == errors
        } else {
            &&& status != Piped::Done(true)
            &&& status is More ==> errors_after == errors
            &&& status is Done ==> reported(errors, errors_after, thread)
            &&& !(sink is File) ==> {
                &&& after.contents() == sink.contents_with(chunk)
                &&& after.position() == sink.position_with(chunk)
                &&& after.reach() == sink.reach_with(chunk)
                &&& status is More <==> chunk.len() <= sink.room()
                &&& status is Done ==> errors_after == errors.insert(thread, sink.no_room_text())
            }
        },
    }
}

/// What was read, as the contracts speak of it.
pub open spec fn taken_view(taken: Result<&[u8], String>) -> Result<Seq<u8>, Seq<char>> {
    match taken {
        Ok(chunk) => Ok(chunk@),
        Err(message) => Err(message@),
    }
}

/// A read that fails ends the copy at once: the copy returns `Done(false)`,
/// the message of that read is the thread's message, and nothing is written.
pub proof fn lemma_failed_read_ends_the_copy<W>(
    sink: WriteWrap<W>,
    after: WriteWrap<W>,
    message: Seq<char>,
    errors: Map<u64, Seq<char>>,
    errors_after: Map<u64, Seq<char>>,
    thread: u64,
    status: Piped,
)
    requires
        forwarded(sink, after, Err(message), errors, errors_after, thread, status),
    ensures
        status == Piped::Done(false),
        after == sink,
        errors_after.contains_key(thread) && errors_after[thread] == message,
        forall|other: u64|
            other != thread ==> errors_after.contains_key(other) == errors.contains_key(other),
{
}

/// What a copy does with one read of its source: `taken` is the chunk that
/// was read, or the failure's message.
///
/// A failure ends the copy with `Done(false)` and stores the message for
/// `thread`. An empty chunk ends it with `Done(true)`: the source is at its
/// end, and nothing is written. Any other chunk is written whole to the
/// sink: the copy goes on (`More`), or the write fails, which ends the copy
/// with `Done(false)` and stores the failure's message.
pub fn forward_chunk<W: Write>(
    write: &mut WriteWrap<W>,
    taken: Result<&[u8], String>,
    errors: &mut ErrorTable,
    thread: u64,
) -> (status: Piped)
    ensures
        forwarded(
            *old(write),
            *final(write),
            taken_view(taken),
            old(errors)@,
            final(errors)@,
            thread,
            status,
        ),
{
    let Some(chunk) = or_report(taken, errors, thread) else {
        return Piped::Done(false);
    };
    if chunk.len() == 0 {
        return Piped::Done(true);
    }
    match or_report(write.put_all(chunk), errors, thread) {
        Some(_) => Piped::More,
        None => Piped::Done(false),
    }
}

/// The chunk in which a given room ends lies `sent / PIPE_CHUNK` chunks in.
proof fn lemma_room_ends_in_chunk(sent: nat, room: nat, count: nat)
    requires
        sent % (PIPE_CHUNK as nat) == 0,
        sent <= room < sent + count,
        count <= PIPE_CHUNK,
    ensures
        whole_chunks(room) == sent,
{
    let chunk = PIPE_CHUNK as int;
    let whole = sent as int / chunk;
    assert(sent == whole * chunk) by (nonlinear_arith)
        requires
            sent as int % chunk == 0,
            whole == sent as int / chunk,
            chunk == 8192,
    ;
    assert(room as int / chunk == whole) by (nonlinear_arith)
        requires
            whole * chunk <= room < whole * chunk + chunk,
            chunk == 8192,
    ;
}

/// Whether a copy that found the sink `sink` and the source `source`, and
/// the messages `errors`, may leave them as `sink_after`, `source_after` and
/// `errors_after` and return `status`.
pub open spec fn piped<W, R>(
    sink: WriteWrap<W>,
    sink_after: WriteWrap<W>,
    source: ReadWrap<R>,
    source_after: ReadWrap<R>,
    errors: Map<u64, Seq<char>>,
    errors_after: Map<u64, Seq<char>>,
    thread: u64,
    status: Piped,
) -> bool {
    let data = source.unread();
    let room = sink.room();
    let sent = delivered(data, room, sink is Buf);
    &&& sink_after.same_kind(&sink)
    &&& source_after.same_store(&source)
    &&& status == Piped::Done(true) ==> errors_after == errors
    &&& status == Piped::Done(false) ==> reported(errors, errors_after, thread)
    &&& status is More ==> source is File && errors_after == errors
    &&& source is File ==> exists|taken: Result<Seq<u8>, Seq<char>>|
        {
            &&& #[trigger] forwarded(sink, sink_after, taken, errors, errors_after, thread, status)
            &&& taken matches Ok(chunk) ==> chunk.len() <= PIPE_CHUNK
        }
    &&& !(source is File) && data.len() == 0 ==> status == Piped::Done(true) && sink_after == sink
    &&& !(source is File) && status == Piped::Done(true) ==> source_after.position()
        == source.position() + data.len()
    &&& !(source is File) && !(sink is File) ==> {
        &&& status == Piped::Done(data.len() <= room)
        &&& sink_after.contents() == sink.contents_with(sent)
        &&& sink_after.position() == sink.position_with(sent)
        &&& sink_after.reach() == sink.reach_with(sent)
        &&& source_after.position() == source.position() + consumed(data, room)
        &&& data.len() > room ==> errors_after == errors.insert(thread, sink.no_room_text())
    }
}

/// A source in memory that has nothing left is copied with success, and
/// the copy writes nothing and stores no message.
pub proof fn lemma_nothing_to_copy<W, R>(
    sink: WriteWrap<W>,
    sink_after: WriteWrap<W>,
    source: ReadWrap<R>,
    source_after: ReadWrap<R>,
    errors: Map<u64, Seq<char>>,
    errors_after: Map<u64, Seq<char>>,
    thread: u64,
    status: Piped,
)
    requires
        piped(sink, sink_after, source, source_after, errors, errors_after, thread, status),
        !(source is File),
        source.unread().len() == 0,
    ensures
        status == Piped::Done(true),
        sink_after == sink,
        errors_after == errors,
{
}

/// A copy between memory and memory that has room moves all that was left
/// of the source to the sink's position, in order, and leaves both ends
/// behind it. A copy that has no room fails and reports for its thread.
pub proof fn lemma_copy_in_memory<W, R>(
    sink: WriteWrap<W>,
    sink_after: WriteWrap<W>,
    source: ReadWrap<R>,
    source_after: ReadWrap<R>,
    errors: Map<u64, Seq<char>>,
    errors_after: Map<u64, Seq<char>>,
    thread: u64,
    status: Piped,
)
    requires
        piped(sink, sink_after, source, source_after, errors, errors_after, thread, status),
        !(source is File),
        !(sink is File),
    ensures
        source.unread().len() <= sink.room() ==> {
            &&& status == Piped::Done(true)
            &&& sink_after.contents() == sink.contents_with(source.unread())
            &&& sink_after.position() == sink.position_with(source.unread())
            &&& sink_after.reach() == sink.reach_with(source.unread())
            &&& source_after.position() == source.position() + source.unread().len()
            &&& source_after.contents() == source.contents()
            &&& errors_after == errors
        },
        source.unread().len() > sink.room() ==> {
            &&& status == Piped::Done(false)
            &&& errors_after == errors.insert(thread, sink.no_room_text())
        },
{
    lemma_whole_chunks_bound(sink.room());
}

/// Whole chunks fill a room up to less than one chunk.
proof fn lemma_whole_chunks_bound(room: nat)
    ensures
        whole_chunks(room) <= room < whole_chunks(room) + PIPE_CHUNK,
{
    let chunk = PIPE_CHUNK as int;
    assert((room as int / chunk) * chunk <= room < (room as int / chunk) * chunk + chunk)
        by (nonlinear_arith)
        requires
            chunk == 8192,
            room >= 0,
    ;
}

/// Whether a sink in memory that was `sink` stands as `now` after the first
/// `sent` bytes of `data` were written to it, whole.
spec fn holds_prefix<W>(sink: WriteWrap<W>, now: WriteWrap<W>, data: Seq<u8>, sent: nat) -> bool {
    &&& sent <= data.len()
    &&& sent <= sink.room()
    &&& now.same_kind(&sink)
    &&& now.room() == sink.room() - sent
    &&& now.contents() == sink.contents_with(data.take(sent as int))
    &&& now.position() == sink.position_with(data.take(sent as int))
    &&& now.reach() == sink.reach_with(data.take(sent as int))
}

/// A sink holds the empty prefix before anything is written.
proof fn lemma_holds_nothing<W>(sink: WriteWrap<W>, data: Seq<u8>)
    requires
        !(sink is File),
    ensures
        holds_prefix(sink, sink, data, 0),
{
    assert(data.take(0) =~= Seq::<u8>::empty());
    assert(sink.contents_with(Seq::<u8>::empty()) =~= sink.contents());
}

/// One more chunk written to a sink that holds a prefix: where the chunk
/// found room the sink holds the longer prefix, and where it did not the
/// sink stands as the copy leaves it.
proof fn lemma_chunk_written<W>(
    sink: WriteWrap<W>,
    before: WriteWrap<W>,
    after: WriteWrap<W>,
    data: Seq<u8>,
    sent: nat,
    chunk: Seq<u8>,
)
    requires
        !(sink is File),
        holds_prefix(sink, before, data, sent),
        sent % (PIPE_CHUNK as nat) == 0,
        0 < chunk.len() <= PIPE_CHUNK,
        sent + chunk.len() <= data.len(),
        chunk == data.skip(sent as int).take(chunk.len() as int),
        chunk.len() == PIPE_CHUNK || sent + chunk.len() == data.len(),
        after.same_kind(&before),
        after.contents() == before.contents_with(chunk),
        after.position() == before.position_with(chunk),
        after.reach() == before.reach_with(chunk),
    ensures
        chunk.len() <= before.room() ==> holds_prefix(sink, after, data, sent + chunk.len()),
        chunk.len() > before.room() ==> {
            let reached = delivered(data, sink.room(), sink is Buf);
            &&& data.len() > sink.room()
            &&& after.contents() == sink.contents_with(reached)
            &&& after.position() == sink.position_with(reached)
            &&& after.reach() == sink.reach_with(reached)
            &&& sent + chunk.len() == consumed(data, sink.room())
        },
{
    let count = chunk.len();
    let head = data.take(sent as int);
    let longer = data.take((sent + count) as int);
    assert(head + chunk =~= longer);
    match sink {
        WriteWrap::Buf(cursor) => {
            cursor.lemma_contents_bounded();
            assert(before.contents().len() == cursor.contents().len());
            assert(after.contents().len() == cursor.contents().len());
            lemma_fixed_writes_join(cursor.contents(), cursor.position(), head, chunk);
            lemma_fixed_reach_joins(
                cursor.reach(),
                cursor.contents().len(),
                cursor.position(),
                head.len(),
                chunk.len(),
            );
            if count > before.room() {
                lemma_room_ends_in_chunk(sent, sink.room(), count);
                let rest = data.skip((sent + count) as int);
                assert(longer + rest =~= data);
                lemma_fixed_write_ignores_overflow(
                    cursor.contents(),
                    cursor.position(),
                    longer,
                    rest,
                );
            }
        },
        WriteWrap::Expanding(cursor) => {
            if count > before.room() {
                lemma_room_ends_in_chunk(sent, sink.room(), count);
            } else if sent > 0 {
                lemma_grow_writes_join(cursor.contents(), cursor.position(), head, chunk);
            } else {
                assert(head =~= Seq::<u8>::empty());
            }
        },
        WriteWrap::File(_) => {},
    }
}

/// A sink that holds all of `data` stands as the copy leaves it.
proof fn lemma_all_written<W>(sink: WriteWrap<W>, now: WriteWrap<W>, data: Seq<u8>)
    requires
        !(sink is File),
        holds_prefix(sink, now, data, data.len()),
    ensures
        data.len() <= sink.room(),
        now.contents() == sink.contents_with(delivered(data, sink.room(), sink is Buf)),
        now.position() == sink.position_with(delivered(data, sink.room(), sink is Buf)),
        now.reach() == sink.reach_with(delivered(data, sink.room(), sink is Buf)),
        consumed(data, sink.room()) == data.len(),
{
    assert(data.take(data.len() as int) =~= data);
    lemma_whole_chunks_bound(sink.room());
}

/// The copy of `libimage_pipe` between a sink and a source that are there.
fn copy_chunks<W: Write, R: Read>(
    write: &mut WriteWrap<W>,
    read: &mut ReadWrap<R>,
    errors: &mut ErrorTable,
    thread: u64,
) -> (status: Piped)
    ensures
        piped(
            *old(write),
            *final(write),
            *old(read),
            *final(read),
            old(errors)@,
            final(errors)@,
            thread,
            status,
        ),
{
    let ghost sink = *write;
    let ghost source = *read;
    let ghost data = source.unread();
    let ghost mut sent: nat = 0;
    let mut buf = vec![0u8; PIPE_CHUNK];
    proof {
        if !(sink is File) {
            lemma_holds_nothing(sink, data);
        }
    }
    loop
        invariant
            buf@.len() == PIPE_CHUNK,
            sink == *old(write),
            source == *old(read),
            data == source.unread(),
            write.same_kind(&sink),
            read.same_store(&source),
            errors@ == old(errors)@,
            sent == 0 ==> *write == sink,
            source is File ==> sent == 0,
            !(source is File) ==> {
                &&& sent <= data.len()
                &&& sent % (PIPE_CHUNK as nat) == 0 || sent == data.len()
                &&& read.position() == source.position() + sent
                &&& read.unread() == data.skip(sent as int)
            },
            !(source is File) && !(sink is File) ==> holds_prefix(sink, *write, data, sent),
        decreases data.len() - sent,
    {
        let ghost before = *write;
        let taken = match read.read(buf.as_mut_slice()) {
            Ok(count) => Ok(slice_subrange(buf.as_slice(), 0, count)),
            Err(why) => Err(text_of(&why)),
        };
        let ghost read_view = taken_view(taken);
        let ghost chunk = match taken {
            Ok(bytes) => bytes@,
            Err(_) => Seq::<u8>::empty(),
        };
        let status = forward_chunk(write, taken, errors, thread);
        proof {
            if source is File {
                assert(forwarded(
                    sink,
                    *write,
                    read_view,
                    old(errors)@,
                    errors@,
                    thread,
                    status,
                ));
            }
            if !(source is File) {
                assert(chunk =~= data.skip(sent as int).take(chunk.len() as int));
                if !(sink is File) {
                    if chunk.len() > 0 {
                        lemma_chunk_written(sink, before, *write, data, sent, chunk);
                    } else {
                        lemma_all_written(sink, before, data);
                    }
                }
            }
        }
        match status {
            Piped::Done(ok) => {
                return Piped::Done(ok);
            },
            Piped::More => {
                if read.is_file() {
                    return Piped::More;
                }
                proof {
                    assert(data.skip(sent as int).skip(chunk.len() as int) =~= data.skip(
                        (sent + chunk.len()) as int,
                    ));
                    sent = sent + chunk.len();
                }
            },
        }
    }
}

/// Copies what a source holds into a sink, in chunks of at most
/// `PIPE_CHUNK` bytes, until a read takes nothing, a read fails or a write
/// fails.
///
/// A source in memory is copied to its end in one call, which returns
/// `Done`. Into a sink in memory the copy succeeds if and only if the sink
/// has room for all that was left to read; the sink then holds those bytes
/// at its position and both ends stand behind them. Where it has not, a
/// fixed range is filled to its end, a growing buffer holds the chunks before
/// the one that found no room, and the message of the failed write is stored
/// for `thread`.
///
/// Of a file one chunk is read in a call, and `More` is returned where it
/// was written and the file may hold more: the caller calls again until
/// `Done` comes. A read that takes nothing ends the copy with `Done(true)`
/// and leaves the sink as it was.
///
/// Without a sink the message is `'write' is null`, without a source
/// `'read' is null`, and the call returns `Done(false)`.
pub fn libimage_pipe<W: Write, R: Read>(
    write: Option<&mut WriteWrap<W>>,
    read: Option<&mut ReadWrap<R>>,
    errors: &mut ErrorTable,
    thread: u64,
) -> (status: Piped)
    ensures
        match (write, read) {
            (None, source) => {
                &&& status == Piped::Done(false)
                &&& final(errors)@ == old(errors)@.insert(thread, "'write' is null"@)
                &&& source matches Some(source) ==> *final(source) == *source
            },
            (Some(sink), None) => {
                &&& status == Piped::Done(false)
                &&& final(errors)@ == old(errors)@.insert(thread, "'read' is null"@)
                &&& *final(sink) == *sink
            },
            (Some(sink), Some(source)) => piped(
                *sink,
                *final(sink),
                *source,
                *final(source),
                old(errors)@,
                final(errors)@,
                thread,
                status,
            ),
        },
{
    let Some(write) = write else {
        set_err(errors, thread, String::from_str("'write' is null"));
        return Piped::Done(false);
    };
    let Some(read) = read else {
        set_err(errors, thread, String::from_str("'read' is null"));
        return Piped::Done(false);
    };
    copy_chunks(write, read, errors, thread)
}

} // verus!
