//! The analysis pipeline's parsing side: reading the structured analysis out
//! of the free-form text that the text-generation capability returns.
//!
//! The reply is untrusted: the pipeline extracts the first-to-last braced
//! region, parses it as JSON, and accepts each part defensively — summaries
//! and ideas default to empty on any shape mismatch, and the flow judgement
//! is kept only when all four of its fields are present as strings.

use vstd::prelude::*;
use vstd::string::*;
use crate::history::{append_entry, spec_append_history, AnalysisEntry};
use crate::jsonio::{
    decode_flow, decode_ideas, decode_summaries, json_flow_of, json_ideas_of, json_parses,
    json_summaries_of,
};
use crate::session::CellState;
use crate::text::{pair_views, str_views};

verus! {

/// The structured flow judgement of one analysis: where knowledge work flows
/// and where it is blocked.
#[derive(Debug)]
pub struct FlowAnalysis {
    /// Whether Stimulus is being converted to Will.
    pub stimuli_to_will: String,
    /// Whether Will is being converted to Supply.
    pub will_to_supply: String,
    /// Where and why the flow is blocked.
    pub stuck: String,
    /// The single most important action to take.
    pub next: String,
}

/// The ephemeral result of one analysis run.
#[derive(Debug)]
pub struct AnalyzeResult {
    /// One-sentence summary per session id.
    pub summaries: Vec<(String, String)>,
    /// Free-text ideas, in order.
    pub ideas: Vec<String>,
    /// The flow judgement, absent when the reply omitted or malformed it.
    pub flow: Option<FlowAnalysis>,
}

/// Whether `r` is the empty analysis result: no summaries, no ideas, no flow.
pub open spec fn spec_empty_result(r: AnalyzeResult) -> bool {
    &&& r.summaries@.len() == 0
    &&& r.ideas@.len() == 0
    &&& r.flow is None
}

/// The empty analysis result.
pub fn empty_result() -> (r: AnalyzeResult)
    ensures
        spec_empty_result(r),
{
    AnalyzeResult { summaries: Vec::new(), ideas: Vec::new(), flow: None }
}

/// The position of the first occurrence of `c` in `s`, when there is one.
pub open spec fn first_index_of(s: Seq<char>, c: char) -> Option<int>
    decreases s.len(),
{
    if s.len() == 0 {
        None
    } else if s[0] == c {
        Some(0)
    } else {
        match first_index_of(s.drop_first(), c) {
            Some(i) => Some(i + 1),
            None => None,
        }
    }
}

/// The position of the last occurrence of `c` in `s`, when there is one.
pub open spec fn last_index_of(s: Seq<char>, c: char) -> Option<int>
    decreases s.len(),
{
    if s.len() == 0 {
        None
    } else if s.last() == c {
        Some(s.len() - 1)
    } else {
        last_index_of(s.drop_last(), c)
    }
}

/// The braced region of `s`: from the first `{` through the last `}`, when
/// both exist in that order.
pub open spec fn spec_extract_json(s: Seq<char>) -> Option<Seq<char>> {
    match (first_index_of(s, '{'), last_index_of(s, '}')) {
        (Some(i), Some(j)) => if j > i {
            Some(s.subrange(i, j + 1))
        } else {
            None
        },
        _ => None,
    }
}

/// A position holding `c`, before which `c` does not occur, is the first
/// occurrence.
proof fn lemma_first_index_at(s: Seq<char>, c: char, i: int)
    requires
        0 <= i < s.len(),
        s[i] == c,
        forall|k: int| 0 <= k < i ==> s[k] != c,
    ensures
        first_index_of(s, c) == Some(i),
    decreases i,
{
    if i > 0 {
        lemma_first_index_at(s.drop_first(), c, i - 1);
    }
}

/// When `c` occurs nowhere in `s` there is no first occurrence.
proof fn lemma_first_index_none(s: Seq<char>, c: char)
    requires
        forall|k: int| 0 <= k < s.len() ==> s[k] != c,
    ensures
        first_index_of(s, c) is None,
    decreases s.len(),
{
    if s.len() > 0 {
        lemma_first_index_none(s.drop_first(), c);
    }
}

/// A position holding `c`, after which `c` does not occur, is the last
/// occurrence.
proof fn lemma_last_index_at(s: Seq<char>, c: char, i: int)
    requires
        0 <= i < s.len(),
        s[i] == c,
        forall|k: int| i < k < s.len() ==> s[k] != c,
    ensures
        last_index_of(s, c) == Some(i),
    decreases s.len(),
{
    if i < s.len() - 1 {
        lemma_last_index_at(s.drop_last(), c, i);
    }
}

/// When `c` occurs nowhere in `s` there is no last occurrence.
proof fn lemma_last_index_none(s: Seq<char>, c: char)
    requires
        forall|k: int| 0 <= k < s.len() ==> s[k] != c,
    ensures
        last_index_of(s, c) is None,
    decreases s.len(),
{
    if s.len() > 0 {
        lemma_last_index_none(s.drop_last(), c);
    }
}

/// Extracts the braced region of `text`: from the first `{` through the last
/// `}`. Tolerates prose or fences around an embedded JSON object; yields
/// `None` when no such region exists.
pub fn extract_json_object(text: &str) -> (r: Option<String>)
    ensures
        match r {
            Some(sub) => spec_extract_json(text@) == Some(sub@),
            None => spec_extract_json(text@) is None,
        },
{
    let n = text.unicode_len();

    // The first opening brace.
    let mut start: usize = 0;
    let mut found_start = false;
    while start < n && !found_start
        invariant
            0 <= start <= n,
            n == text@.len(),
            !found_start ==> forall|k: int| 0 <= k < start ==> text@[k] != '{',
            found_start ==> 0 <= start < n && text@[start as int] == '{' && forall|k: int|
                0 <= k < start ==> text@[k] != '{',
        decreases n - start + (if found_start { 0int } else { 1int }),
    {
        if text.get_char(start) == '{' {
            found_start = true;
        } else {
            start = start + 1;
        }
    }
    if !found_start {
        proof {
            lemma_first_index_none(text@, '{');
        }
        return None;
    }

    // The last closing brace.
    let mut end: usize = n;
    let mut found_end = false;
    while end > 0 && !found_end
        invariant
            0 <= end <= n,
            n == text@.len(),
            !found_end ==> forall|k: int| end <= k < n ==> text@[k] != '}',
            found_end ==> 0 <= end < n && text@[end as int] == '}' && forall|k: int|
                end < k < n ==> text@[k] != '}',
        decreases end + (if found_end { 0int } else { 1int }),
    {
        if text.get_char(end - 1) == '}' {
            end = end - 1;
            found_end = true;
        } else {
            end = end - 1;
        }
    }
    if !found_end {
        proof {
            lemma_last_index_none(text@, '}');
        }
        return None;
    }

    proof {
        lemma_first_index_at(text@, '{', start as int);
        lemma_last_index_at(text@, '}', end as int);
    }
    if end > start {
        let sub = text.substring_char(start, end + 1);
        Some(sub.to_owned())
    } else {
        None
    }
}

/// Assembles an analysis result from the defensively decoded parts: absent
/// or malformed summaries and ideas default to empty, and the flow judgement
/// exists exactly when all four of its fields were present as strings — a
/// partial flow object is dropped whole, never partially accepted.
pub fn assemble_result(
    summaries: Option<Vec<(String, String)>>,
    ideas: Option<Vec<String>>,
    stimuli_to_will: Option<String>,
    will_to_supply: Option<String>,
    stuck: Option<String>,
    next_action: Option<String>,
) -> (r: AnalyzeResult)
    ensures
        r.summaries@ == (match summaries {
            Some(s) => s@,
            None => Seq::<(String, String)>::empty(),
        }),
        r.ideas@ == (match ideas {
            Some(s) => s@,
            None => Seq::<String>::empty(),
        }),
        match (stimuli_to_will, will_to_supply, stuck, next_action) {
            (Some(a), Some(b), Some(c), Some(d)) => match r.flow {
                Some(f) => f.stimuli_to_will == a && f.will_to_supply == b && f.stuck == c
                    && f.next == d,
                None => false,
            },
            _ => r.flow is None,
        },
{
    let flow = match (stimuli_to_will, will_to_supply, stuck, next_action) {
        (Some(a), Some(b), Some(c), Some(d)) => Some(
            FlowAnalysis { stimuli_to_will: a, will_to_supply: b, stuck: c, next: d },
        ),
        _ => None,
    };
    AnalyzeResult {
        summaries: match summaries {
            Some(s) => s,
            None => Vec::new(),
        },
        ideas: match ideas {
            Some(s) => s,
            None => Vec::new(),
        },
        flow,
    }
}

/// Reads the structured analysis out of the capability's free-form reply.
/// With no braced region, or with one that the JSON parser rejects, the
/// result degrades to empty rather than failing. Otherwise the summaries and
/// ideas are exactly their strict decodes (empty on any shape mismatch), and
/// the flow judgement exists exactly when the strict flow decode yields all
/// four of its fields.
pub fn parse_analysis_response(text: &str) -> (r: AnalyzeResult)
    ensures
        match spec_extract_json(text@) {
            None => spec_empty_result(r),
            Some(js) => {
                &&& (!json_parses(js) ==> spec_empty_result(r))
                &&& pair_views(r.summaries@) == (match json_summaries_of(js) {
                    Some(m) => m,
                    None => Seq::<(Seq<char>, Seq<char>)>::empty(),
                })
                &&& str_views(r.ideas@) == (match json_ideas_of(js) {
                    Some(l) => l,
                    None => Seq::<Seq<char>>::empty(),
                })
                &&& (match (json_flow_of(js), r.flow) {
                    (Some(f), Some(g)) => g.stimuli_to_will@ == f.0 && g.will_to_supply@ == f.1
                        && g.stuck@ == f.2 && g.next@ == f.3,
                    (None, None) => true,
                    _ => false,
                })
            },
        },
{
    match extract_json_object(text) {
        None => empty_result(),
        Some(js) => {
            let summaries = decode_summaries(js.as_str());
            let ideas = decode_ideas(js.as_str());
            let (a, b, c, d) = match decode_flow(js.as_str()) {
                Some(f) => (Some(f.0), Some(f.1), Some(f.2), Some(f.3)),
                None => (None, None, None, None),
            };
            let r = assemble_result(summaries, ideas, a, b, c, d);
            proof {
                assert(pair_views(Seq::<(String, String)>::empty()) =~= Seq::<
                    (Seq<char>, Seq<char>),
                >::empty());
                assert(str_views(Seq::<String>::empty()) =~= Seq::<Seq<char>>::empty());
            }
            r
        },
    }
}

/// The id/label pairs of the sessions, in slot order: what a history entry
/// records as the labels that were active.
pub open spec fn spec_theme_pairs(cells: Seq<CellState>) -> Seq<(String, String)> {
    Seq::new(cells.len(), |i: int| (cells[i].id, cells[i].theme))
}

/// Copies a list of id/text pairs.
fn clone_pairs(v: &Vec<(String, String)>) -> (r: Vec<(String, String)>)
    ensures
        r@ == v@,
{
    let n = v.len();
    let mut out: Vec<(String, String)> = Vec::new();
    let mut i: usize = 0;
    while i < n
        invariant
            0 <= i <= n,
            n == v@.len(),
            out@ == v@.take(i as int),
        decreases n - i,
    {
        let pair = &v[i];
        out.push((pair.0.clone(), pair.1.clone()));
        proof {
            assert(out@ =~= v@.take(i as int + 1));
        }
        i = i + 1;
    }
    proof {
        assert(v@.take(n as int) =~= v@);
    }
    out
}

/// Copies a list of strings.
fn clone_strings(v: &Vec<String>) -> (r: Vec<String>)
    ensures
        r@ == v@,
{
    let n = v.len();
    let mut out: Vec<String> = Vec::new();
    let mut i: usize = 0;
    while i < n
        invariant
            0 <= i <= n,
            n == v@.len(),
            out@ == v@.take(i as int),
        decreases n - i,
    {
        let item = v[i].clone();
        out.push(item);
        proof {
            assert(out@ =~= v@.take(i as int + 1));
        }
        i = i + 1;
    }
    proof {
        assert(v@.take(n as int) =~= v@);
    }
    out
}

/// Builds the history entry that records one analysis run: its timestamp,
/// the run's summaries and ideas, and the label each session carried at the
/// time. An entry is recorded after every run, even an empty one.
pub fn make_history_entry(
    timestamp: String,
    result: &AnalyzeResult,
    cells: &Vec<CellState>,
) -> (e: AnalysisEntry)
    ensures
        e.timestamp@ == timestamp@,
        e.summaries@ == result.summaries@,
        e.ideas@ == result.ideas@,
        e.themes@ == spec_theme_pairs(cells@),
{
    let n = cells.len();
    let mut themes: Vec<(String, String)> = Vec::new();
    let mut i: usize = 0;
    while i < n
        invariant
            0 <= i <= n,
            n == cells@.len(),
            themes@ == spec_theme_pairs(cells@).take(i as int),
        decreases n - i,
    {
        let c = &cells[i];
        themes.push((c.id.clone(), c.theme.clone()));
        proof {
            assert(themes@ =~= spec_theme_pairs(cells@).take(i as int + 1));
        }
        i = i + 1;
    }
    proof {
        assert(spec_theme_pairs(cells@).take(n as int) =~= spec_theme_pairs(cells@));
    }
    AnalysisEntry {
        timestamp,
        summaries: clone_pairs(&result.summaries),
        themes,
        ideas: clone_strings(&result.ideas),
    }
}

/// Records one analysis run in the history: after every run — an empty one
/// included — the entry built by `make_history_entry` is appended, and the
/// log keeps at most its cap by evicting the oldest entries.
pub fn record_analysis(
    history: &mut Vec<AnalysisEntry>,
    timestamp: String,
    result: &AnalyzeResult,
    cells: &Vec<CellState>,
)
    ensures
        final(history)@.len() >= 1,
        final(history)@ == spec_append_history(old(history)@, final(history)@.last()),
        final(history)@.last().timestamp@ == timestamp@,
        final(history)@.last().summaries@ == result.summaries@,
        final(history)@.last().ideas@ == result.ideas@,
        final(history)@.last().themes@ == spec_theme_pairs(cells@),
{
    let entry = make_history_entry(timestamp, result, cells);
    append_entry(history, entry);
    proof {
        assert(final(history)@.last() == entry);
    }
}


} // verus!
