//! The last-error table: one message slot for each calling thread.

use std::collections::HashMap;
use vstd::prelude::*;

verus! {

/// The most recent error message of each thread that has one.
///
/// A thread is known by the number its caller gives for it. The view maps
/// that number to the message's characters.
pub struct ErrorTable {
    slots: HashMap<u64, String>,
}

impl View for ErrorTable {
    type V = Map<u64, Seq<char>>;

    closed spec fn view(&self) -> Map<u64, Seq<char>> {
        self.slots@.map_values(|message: String| message@)
    }
}

impl ErrorTable {
    /// A table in which no thread has a message.
    pub fn new() -> (table: ErrorTable)
        ensures
            table@ == Map::<u64, Seq<char>>::empty(),
    {
        let table = ErrorTable { slots: HashMap::new() };
        assert(table@ =~= Map::<u64, Seq<char>>::empty());
        table
    }
}

/// Stores `error` as the message of `thread`, in place of any earlier one.
/// No other thread's slot changes.
pub fn set_err(errors: &mut ErrorTable, thread: u64, error: String)
    ensures
        final(errors)@ == old(errors)@.insert(thread, error@),
{
    broadcast use vstd::std_specs::hash::group_hash_axioms;

    let ghost before = errors.slots@;
    errors.slots.insert(thread, error);
    assert(errors.slots@ == before.insert(thread, error));
    assert(errors@ =~= old(errors)@.insert(thread, error@));
}

/// The message of `thread`, or `None` where it has none.
pub fn libimage_get_err(errors: &ErrorTable, thread: u64) -> (message: Option<&String>)
    ensures
        match message {
            Some(text) => errors@.contains_key(thread) && errors@[thread] == text@,
            None => !errors@.contains_key(thread),
        },
{
    broadcast use vstd::std_specs::hash::group_hash_axioms;

    errors.slots.get(&thread)
}

/// Removes the message of `thread`. No other thread's slot changes.
pub fn libimage_reset_err(errors: &mut ErrorTable, thread: u64)
    ensures
        final(errors)@ == old(errors)@.remove(thread),
{
    broadcast use vstd::std_specs::hash::group_hash_axioms;

    errors.slots.remove(&thread);
    assert(errors@ =~= old(errors)@.remove(thread));
}

/// Whether `after` is `before` with some message stored for `thread`: the
/// thread has a message, and no other thread's slot differs.
pub open spec fn reported(
    before: Map<u64, Seq<char>>,
    after: Map<u64, Seq<char>>,
    thread: u64,
) -> bool {
    exists|message: Seq<char>| after == #[trigger] before.insert(thread, message)
}

/// The value of an outcome, or the sentinel `None` for a failure, whose
/// message is stored for `thread`. A success stores nothing.
pub fn or_report<T>(outcome: Result<T, String>, errors: &mut ErrorTable, thread: u64) -> (value:
    Option<T>)
    ensures
        match outcome {
            Ok(got) => value == Some(got) && final(errors)@ == old(errors)@,
            Err(message) => value is None && final(errors)@ == old(errors)@.insert(
                thread,
                message@,
            ),
        },
{
    match outcome {
        Ok(got) => Some(got),
        Err(message) => {
            set_err(errors, thread, message);
            None
        },
    }
}

/// A message stored for one thread is never seen by another: after `writer`
/// stores `message`, every other thread finds what it found before, and
/// `writer` finds `message`.
pub proof fn lemma_slots_are_per_thread(
    table: Map<u64, Seq<char>>,
    writer: u64,
    message: Seq<char>,
    reader: u64,
)
    requires
        reader != writer,
    ensures
        table.insert(writer, message).contains_key(reader) == table.contains_key(reader),
        table.contains_key(reader) ==> table.insert(writer, message)[reader] == table[reader],
        table.insert(writer, message).contains_key(writer),
        table.insert(writer, message)[writer] == message,
{
}

/// A call that reports for its own thread changes no other thread's slot:
/// every other thread finds afterwards what it found before.
pub proof fn lemma_report_spares_other_threads(
    before: Map<u64, Seq<char>>,
    after: Map<u64, Seq<char>>,
    thread: u64,
    other: u64,
)
    requires
        reported(before, after, thread),
        other != thread,
    ensures
        after.contains_key(thread),
        after.contains_key(other) == before.contains_key(other),
        before.contains_key(other) ==> after[other] == before[other],
{
}

/// Resetting after an error leaves the thread without a message, whatever
/// it held before, and gives back the table as it was before a first error.
pub proof fn lemma_reset_drains(table: Map<u64, Seq<char>>, thread: u64, message: Seq<char>)
    ensures
        !table.insert(thread, message).remove(thread).contains_key(thread),
        !table.contains_key(thread) ==> table.insert(thread, message).remove(thread) == table,
{
    assert(!table.contains_key(thread) ==> table.insert(thread, message).remove(thread) =~= table);
}

} // verus!
