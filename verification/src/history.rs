//! The analysis history: an ordered, capped log of past analysis entries.
//!
//! Appending keeps the newest entries: once the log would pass the cap,
//! entries are dropped from the front (oldest first) until exactly the cap
//! remain.

use vstd::prelude::*;
use crate::MAX_HISTORY;

verus! {

/// One historical, timestamped snapshot of an analysis run. Entries are
/// immutable once created.
#[derive(Debug)]
pub struct AnalysisEntry {
    /// ISO-8601 UTC timestamp of the run, second precision.
    pub timestamp: String,
    /// One-sentence summary per session id.
    pub summaries: Vec<(String, String)>,
    /// The display label each session had when the entry was recorded.
    pub themes: Vec<(String, String)>,
    /// Free-text ideas, in the order the analysis produced them.
    pub ideas: Vec<String>,
}

/// The log that results from appending `entry` to `history`: the
/// concatenation, with the oldest entries dropped once the cap is passed.
pub open spec fn spec_append_history(
    history: Seq<AnalysisEntry>,
    entry: AnalysisEntry,
) -> Seq<AnalysisEntry> {
    let grown = history.push(entry);
    if grown.len() > MAX_HISTORY {
        grown.subrange(grown.len() - MAX_HISTORY, grown.len() as int)
    } else {
        grown
    }
}

/// Appends `entry` to `history`, dropping entries from the front until at
/// most the cap remain.
pub fn append_entry(history: &mut Vec<AnalysisEntry>, entry: AnalysisEntry)
    ensures
        final(history)@ == spec_append_history(old(history)@, entry),
{
    history.push(entry);
    if history.len() > MAX_HISTORY {
        let excess = history.len() - MAX_HISTORY;
        let kept = history.split_off(excess);
        *history = kept;
        proof {
            assert(final(history)@ =~= spec_append_history(old(history)@, entry));
        }
    }
}

/// The history never exceeds the cap: appending to a full log evicts exactly
/// the oldest entry, and nothing else changes order.
pub proof fn lemma_history_capped(history: Seq<AnalysisEntry>, entry: AnalysisEntry)
    requires
        history.len() <= MAX_HISTORY,
    ensures
        spec_append_history(history, entry).len() <= MAX_HISTORY,
        history.len() == MAX_HISTORY ==> spec_append_history(history, entry)
            == history.drop_first().push(entry),
        history.len() < MAX_HISTORY ==> spec_append_history(history, entry)
            == history.push(entry),
{
    if history.len() == MAX_HISTORY {
        assert(spec_append_history(history, entry) =~= history.drop_first().push(entry));
    }
}

} // verus!
