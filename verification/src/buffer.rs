//! The bounded trailing-window output buffer of a session.
//!
//! A buffer grows by appending decoded chunks. Once its length passes twice
//! the soft ceiling it is trimmed from the front back down to the ceiling.
//! The buffer is a sequence of characters, so a trim can never split a
//! multi-byte encoded character. A separately truncated copy, under a larger
//! ceiling, is what gets persisted.

use vstd::prelude::*;
use vstd::string::*;
use crate::text::{spec_tail_chars, tail_chars};
use crate::{BUFFER_LIMIT, MAX_OUTPUT_CHARS};

verus! {

/// The buffer that results from appending `chunk` to `buf`: the concatenation,
/// trimmed from the front to the soft ceiling once it passes twice the
/// ceiling.
pub open spec fn spec_append_trim(buf: Seq<char>, chunk: Seq<char>) -> Seq<char> {
    let grown = buf + chunk;
    if grown.len() > 2 * BUFFER_LIMIT {
        grown.subrange(grown.len() - BUFFER_LIMIT, grown.len() as int)
    } else {
        grown
    }
}

/// Appends `chunk` to the session buffer `buf`, trimming from the front to
/// the soft ceiling when the buffer passes twice the ceiling.
pub fn append_chunk(buf: &mut String, chunk: &str)
    ensures
        final(buf)@ == spec_append_trim(old(buf)@, chunk@),
        final(buf)@.len() <= 2 * BUFFER_LIMIT
            || final(buf)@.len() == old(buf)@.len() + chunk@.len(),
{
    buf.append(chunk);
    let len = buf.unicode_len();
    if len > 2 * BUFFER_LIMIT {
        let trimmed = tail_chars(buf.as_str(), BUFFER_LIMIT);
        *buf = trimmed;
        proof {
            assert(final(buf)@ =~= spec_append_trim(old(buf)@, chunk@));
        }
    }
}

/// A buffer below twice the soft ceiling stays below twice the soft ceiling,
/// whatever chunk is appended: the trim keeps the in-memory window bounded,
/// and (being a character sequence) the window is always valid text.
pub proof fn lemma_append_trim_bounded(buf: Seq<char>, chunk: Seq<char>)
    requires
        buf.len() <= 2 * BUFFER_LIMIT,
    ensures
        spec_append_trim(buf, chunk).len() <= 2 * BUFFER_LIMIT,
        buf.len() + chunk.len() > 2 * BUFFER_LIMIT ==> spec_append_trim(buf, chunk).len()
            == BUFFER_LIMIT,
{
}

/// The buffer after a whole sequence of chunks has been appended in order.
pub open spec fn spec_append_all(buf: Seq<char>, chunks: Seq<Seq<char>>) -> Seq<char>
    decreases chunks.len(),
{
    if chunks.len() == 0 {
        buf
    } else {
        spec_append_trim(spec_append_all(buf, chunks.drop_last()), chunks.last())
    }
}

/// For any sequence of appended chunks, a buffer that started below twice
/// the soft ceiling stays below it — and, being a character sequence, stays
/// valid text — however far the cumulative appended length exceeds the
/// ceiling.
pub proof fn lemma_append_all_bounded(buf: Seq<char>, chunks: Seq<Seq<char>>)
    requires
        buf.len() <= 2 * BUFFER_LIMIT,
    ensures
        spec_append_all(buf, chunks).len() <= 2 * BUFFER_LIMIT,
    decreases chunks.len(),
{
    if chunks.len() > 0 {
        lemma_append_all_bounded(buf, chunks.drop_last());
        lemma_append_trim_bounded(spec_append_all(buf, chunks.drop_last()), chunks.last());
    }
}

/// When the trim fires it keeps exactly the trailing window of the grown
/// buffer: appends are lost from the front only, never from the back.
pub proof fn lemma_append_trim_keeps_tail(buf: Seq<char>, chunk: Seq<char>)
    ensures
        spec_append_trim(buf, chunk) == spec_tail_chars(
            buf + chunk,
            if buf.len() + chunk.len() > 2 * BUFFER_LIMIT {
                BUFFER_LIMIT as int
            } else {
                (buf.len() + chunk.len()) as int
            },
        ),
{
    let grown = buf + chunk;
    if grown.len() <= 2 * BUFFER_LIMIT {
        assert(spec_append_trim(buf, chunk) =~= spec_tail_chars(grown, grown.len() as int));
    }
}

/// The persisted copy of a session buffer: its trailing window under the
/// larger persistence ceiling.
pub open spec fn spec_persisted(buf: Seq<char>) -> Seq<char> {
    spec_tail_chars(buf, MAX_OUTPUT_CHARS as int)
}

/// Truncates a session buffer to the trailing window that is persisted,
/// never splitting a character.
pub fn truncate_for_save(buf: &str) -> (r: String)
    ensures
        r@ == spec_persisted(buf@),
        r@.len() <= MAX_OUTPUT_CHARS,
{
    tail_chars(buf, MAX_OUTPUT_CHARS)
}

} // verus!
