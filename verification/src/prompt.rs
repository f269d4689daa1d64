//! The analysis pipeline's prompt side: rendering retained history and the
//! non-empty sessions of each workflow layer into the one prompt that is
//! submitted to the text-generation capability.
//!
//! When every session's buffered output is empty there is nothing to
//! analyze: no prompt is built, so the caller makes no network call and
//! returns the empty result.

use vstd::prelude::*;
use vstd::string::*;
use crate::history::AnalysisEntry;
use crate::role::{get_cell_role, spec_cell_role, Role};
use crate::session::{cell_views, CellModel, CellState};
use crate::text::{push_char, spec_tail_chars, str_eq, tail_chars};

verus! {

/// Characters of buffered output shown per session in the prompt.
pub const OUTPUT_WINDOW: usize = 600;

/// How many of the most recent history entries the prompt shows.
pub const HISTORY_SHOWN: usize = 5;

/// The label under which a history entry shows session `id`: the entry's
/// recorded label for that id, or the id itself when none was recorded.
pub open spec fn spec_theme_or(themes: Seq<(String, String)>, id: Seq<char>) -> Seq<char>
    decreases themes.len(),
{
    if themes.len() == 0 {
        id
    } else if themes[0].0@ == id {
        themes[0].1@
    } else {
        spec_theme_or(themes.drop_first(), id)
    }
}

/// Looks up the label a history entry recorded for `id`, defaulting to the
/// id itself.
fn lookup_theme(themes: &Vec<(String, String)>, id: &str) -> (r: String)
    ensures
        r@ == spec_theme_or(themes@, id@),
{
    let n = themes.len();
    let mut j: usize = 0;
    proof {
        assert(themes@.skip(0) =~= themes@);
    }
    while j < n
        invariant
            0 <= j <= n,
            n == themes@.len(),
            spec_theme_or(themes@, id@) == spec_theme_or(themes@.skip(j as int), id@),
        decreases n - j,
    {
        proof {
            assert(themes@.skip(j as int)[0] == themes@[j as int]);
            assert(themes@.skip(j as int).drop_first() =~= themes@.skip(j as int + 1));
        }
        if str_eq(themes[j].0.as_str(), id) {
            return themes[j].1.clone();
        }
        j = j + 1;
    }
    proof {
        assert(themes@.skip(n as int).len() == 0);
    }
    id.to_owned()
}

/// One rendered summary line of a history entry: the session's label (or id)
/// in brackets, then the summary.
pub open spec fn spec_summary_line(e: AnalysisEntry, k: int) -> Seq<char> {
    "  ["@ + spec_theme_or(e.themes@, e.summaries@[k].0@) + "] "@ + e.summaries@[k].1@
}

/// The first `k` summary lines of a history entry, joined by line breaks.
pub open spec fn spec_summary_lines(e: AnalysisEntry, k: int) -> Seq<char>
    decreases k,
{
    if k <= 0 {
        Seq::empty()
    } else if k == 1 {
        spec_summary_line(e, 0)
    } else {
        spec_summary_lines(e, k - 1) + "\n"@ + spec_summary_line(e, k - 1)
    }
}

/// One rendered history entry: its timestamp, then its summary lines.
pub open spec fn spec_entry_block(e: AnalysisEntry) -> Seq<char> {
    e.timestamp@ + "\n"@ + spec_summary_lines(e, e.summaries@.len() as int)
}

/// Rendered history entries joined by blank lines.
pub open spec fn spec_entry_blocks(h: Seq<AnalysisEntry>) -> Seq<char>
    decreases h.len(),
{
    if h.len() == 0 {
        Seq::empty()
    } else if h.len() == 1 {
        spec_entry_block(h[0])
    } else {
        spec_entry_blocks(h.drop_last()) + "\n\n"@ + spec_entry_block(h.last())
    }
}

/// The rendered history section: the most recent entries (at most
/// `HISTORY_SHOWN`), oldest of them first; empty when there is no history.
pub open spec fn spec_format_history(h: Seq<AnalysisEntry>) -> Seq<char> {
    if h.len() > HISTORY_SHOWN {
        spec_entry_blocks(h.skip(h.len() - HISTORY_SHOWN))
    } else {
        spec_entry_blocks(h)
    }
}

/// Renders one history entry's summary lines.
fn summary_lines(e: &AnalysisEntry) -> (r: String)
    ensures
        r@ == spec_summary_lines(*e, e.summaries@.len() as int),
{
    let mut s = String::new();
    let m = e.summaries.len();
    let mut k: usize = 0;
    while k < m
        invariant
            0 <= k <= m,
            m == e.summaries@.len(),
            s@ == spec_summary_lines(*e, k as int),
        decreases m - k,
    {
        if k > 0 {
            push_char(&mut s, '\n');
        }
        s.append("  [");
        let theme = lookup_theme(&e.themes, e.summaries[k].0.as_str());
        s.append(theme.as_str());
        s.append("] ");
        s.append(e.summaries[k].1.as_str());
        proof {
            reveal_strlit("\n");
            assert(seq!['\n'] =~= "\n"@);
            assert(s@ =~= spec_summary_lines(*e, k as int + 1));
        }
        k = k + 1;
    }
    s
}

/// Renders the history section of the prompt: the most recent entries, each
/// as its timestamp followed by per-session `[label] summary` lines.
pub fn format_history(history: &Vec<AnalysisEntry>) -> (r: String)
    ensures
        r@ == spec_format_history(history@),
{
    let len = history.len();
    let from: usize = if len > HISTORY_SHOWN {
        len - HISTORY_SHOWN
    } else {
        0
    };
    let ghost shown = if history@.len() > HISTORY_SHOWN {
        history@.skip(history@.len() - HISTORY_SHOWN)
    } else {
        history@
    };
    proof {
        if history@.len() <= HISTORY_SHOWN {
            assert(history@.skip(0) =~= history@);
        }
        assert(shown =~= history@.skip(from as int));
        assert(shown.take(0).len() == 0);
    }
    let mut s = String::new();
    let mut i: usize = from;
    while i < len
        invariant
            from <= i <= len,
            len == history@.len(),
            shown == history@.skip(from as int),
            shown.len() == len - from,
            s@ == spec_entry_blocks(shown.take(i - from)),
        decreases len - i,
    {
        if i > from {
            s.append("\n\n");
        }
        let e = &history[i];
        s.append(e.timestamp.as_str());
        push_char(&mut s, '\n');
        let lines = summary_lines(e);
        s.append(lines.as_str());
        proof {
            reveal_strlit("\n");
            assert(seq!['\n'] =~= "\n"@);
            let t = shown.take(i - from + 1);
            assert(t.drop_last() =~= shown.take(i - from));
            assert(t.last() == shown[i - from] && shown[i - from] == history@[i as int]);
            assert(s@ =~= spec_entry_blocks(t));
        }
        i = i + 1;
    }
    proof {
        assert(shown.take(len - from) =~= shown);
    }
    s
}

/// One session rendered for the prompt: its label in brackets, then the
/// trailing window of its buffered output.
pub open spec fn spec_cell_block(c: CellModel) -> Seq<char> {
    "  ["@ + c.theme + "]\n"@ + spec_tail_chars(c.last_output, OUTPUT_WINDOW as int)
}

/// Rendered sessions joined by separators.
pub open spec fn spec_format_cells(cs: Seq<CellModel>) -> Seq<char>
    decreases cs.len(),
{
    if cs.len() == 0 {
        Seq::empty()
    } else if cs.len() == 1 {
        spec_cell_block(cs[0])
    } else {
        spec_format_cells(cs.drop_last()) + "\n---\n"@ + spec_cell_block(cs.last())
    }
}

/// Renders a list of sessions for the prompt, separated by rules: each as
/// `[label]` then up to the last `OUTPUT_WINDOW` characters of its output.
pub fn format_cells(cells: &Vec<CellState>) -> (r: String)
    ensures
        r@ == spec_format_cells(cell_views(cells@)),
{
    let n = cells.len();
    let ghost views = cell_views(cells@);
    let mut s = String::new();
    let mut i: usize = 0;
    proof {
        assert(views.take(0).len() == 0);
    }
    while i < n
        invariant
            0 <= i <= n,
            n == cells@.len(),
            views == cell_views(cells@),
            views.len() == n,
            s@ == spec_format_cells(views.take(i as int)),
        decreases n - i,
    {
        if i > 0 {
            s.append("\n---\n");
        }
        s.append("  [");
        s.append(cells[i].theme.as_str());
        s.append("]\n");
        let window = tail_chars(cells[i].last_output.as_str(), OUTPUT_WINDOW);
        s.append(window.as_str());
        proof {
            let t = views.take(i as int + 1);
            assert(t.drop_last() =~= views.take(i as int));
            assert(t.last() == views[i as int] && views[i as int] == cells@[i as int]@);
            assert(s@ =~= spec_format_cells(t));
        }
        i = i + 1;
    }
    proof {
        assert(views.take(n as int) =~= views);
    }
    s
}

/// The sessions of one workflow layer that have buffered output, in slot
/// order.
pub open spec fn spec_bucket(cs: Seq<CellModel>, role: Role, cols: nat) -> Seq<CellModel>
    decreases cs.len(),
{
    if cs.len() == 0 {
        Seq::empty()
    } else {
        let rest = spec_bucket(cs.drop_last(), role, cols);
        let c = cs.last();
        if spec_cell_role(c.id, cols) == role && c.last_output.len() > 0 {
            rest.push(c)
        } else {
            rest
        }
    }
}

/// Collects the sessions of layer `role` that have buffered output.
fn bucket_cells(cells: &Vec<CellState>, role: Role, cols: usize) -> (r: Vec<CellState>)
    ensures
        cell_views(r@) == spec_bucket(cell_views(cells@), role, cols as nat),
{
    let n = cells.len();
    let ghost views = cell_views(cells@);
    let mut out: Vec<CellState> = Vec::new();
    let mut i: usize = 0;
    proof {
        assert(views.take(0).len() == 0);
        assert(cell_views(out@) =~= spec_bucket(views.take(0), role, cols as nat));
    }
    while i < n
        invariant
            0 <= i <= n,
            n == cells@.len(),
            views == cell_views(cells@),
            views.len() == n,
            cell_views(out@) == spec_bucket(views.take(i as int), role, cols as nat),
        decreases n - i,
    {
        proof {
            let t = views.take(i as int + 1);
            assert(t.drop_last() =~= views.take(i as int));
            assert(t.last() == views[i as int] && views[i as int] == cells@[i as int]@);
        }
        let c = &cells[i];
        if get_cell_role(c.id.as_str(), cols) == role && !c.last_output.as_str().is_empty() {
            let copy = c.clone();
            out.push(copy);
            proof {
                assert(cell_views(out@) =~= spec_bucket(
                    views.take(i as int + 1),
                    role,
                    cols as nat,
                ));
            }
        } else {
            proof {
                assert(cell_views(out@) =~= spec_bucket(
                    views.take(i as int + 1),
                    role,
                    cols as nat,
                ));
            }
        }
        i = i + 1;
    }
    proof {
        assert(views.take(n as int) =~= views);
    }
    out
}

/// A session with buffered output makes the bucket of its own layer
/// non-empty.
proof fn lemma_bucket_of_role_nonempty(cs: Seq<CellModel>, k: int, cols: nat)
    requires
        0 <= k < cs.len(),
        cs[k].last_output.len() > 0,
    ensures
        spec_bucket(cs, spec_cell_role(cs[k].id, cols), cols).len() > 0,
    decreases cs.len(),
{
    if k < cs.len() - 1 {
        lemma_bucket_of_role_nonempty(cs.drop_last(), k, cols);
    }
}

/// Every session in a bucket has buffered output, so a non-empty bucket
/// witnesses a session with output.
proof fn lemma_bucket_nonempty_witness(cs: Seq<CellModel>, role: Role, cols: nat)
    requires
        spec_bucket(cs, role, cols).len() > 0,
    ensures
        exists|k: int| 0 <= k < cs.len() && #[trigger] cs[k].last_output.len() > 0,
    decreases cs.len(),
{
    if cs.len() > 0 {
        let c = cs.last();
        if spec_cell_role(c.id, cols) == role && c.last_output.len() > 0 {
            assert(cs[cs.len() - 1].last_output.len() > 0);
        } else {
            lemma_bucket_nonempty_witness(cs.drop_last(), role, cols);
            let k = choose|k: int|
                0 <= k < cs.drop_last().len() && #[trigger] cs.drop_last()[k].last_output.len()
                    > 0;
            assert(cs[k].last_output.len() > 0);
        }
    }
}

/// The layer text of a bucket: its rendered sessions, or a fixed marker when
/// the layer has none.
pub open spec fn spec_bucket_text(cs: Seq<CellModel>) -> Seq<char> {
    if cs.len() > 0 {
        spec_format_cells(cs)
    } else {
        "(no active cells)"@
    }
}

/// The history block of the prompt: the rendered section under its heading,
/// or nothing when the section is empty.
pub open spec fn spec_history_block(h: Seq<AnalysisEntry>) -> Seq<char> {
    if spec_format_history(h).len() == 0 {
        Seq::empty()
    } else {
        "## Past Session History\n"@ + spec_format_history(h) + "\n"@
    }
}

/// The fixed prompt text before the history block.
pub const PROMPT_HEAD: &'static str = "You are an AI called \"Command\" that analyzes the flow of knowledge work.\n\nThe user's knowledge work is organized into 3 layers:\n- Stimulus (receiving from outside) \u{2192} Will (converting to personal intent) \u{2192} Supply (creating and putting out)\n\nAnalyze whether this vertical flow is functioning healthily.\n\n";

/// The fixed prompt text between the history block and the Stimulus layer.
pub const PROMPT_STIMULUS: &'static str = "\n\n## Current Session\n\n### Stimulus Layer (what is being received from outside)\n";

/// The fixed prompt text before the Will layer.
pub const PROMPT_WILL: &'static str = "\n\n### Will Layer (what is being internalized)\n";

/// The fixed prompt text before the Supply layer.
pub const PROMPT_SUPPLY: &'static str = "\n\n### Supply Layer (what is being created and shipped)\n";

/// The fixed prompt text before the response language.
pub const PROMPT_LANG: &'static str = "\n\nRespond entirely in: ";

/// The fixed prompt text asking for the exact JSON output shape.
pub const PROMPT_FORMAT: &'static str = "\n\n## Output format (JSON only, no markdown)\n{\n  \"summaries\": {\n    \"<cellId>\": \"one sentence describing what is happening in this cell\"\n  },\n  \"ideas\": [\n    \"concrete action or insight emerging from Stimulus \u{00d7} Will (2-3 items)\"\n  ],\n  \"flow\": {\n    \"stimuli_to_will\": \"whether Stimulus is being converted to Will, and if so what it became\",\n    \"will_to_supply\": \"whether Will is being converted to Supply, and if so what is being created\",\n    \"stuck\": \"where and why the flow is blocked (write 'none' if no blockage)\",\n    \"next\": \"the single most important action to take right now\"\n  }\n}";

/// The whole analysis prompt over the session models, the history, and the
/// response language.
pub open spec fn spec_analysis_prompt(
    cs: Seq<CellModel>,
    h: Seq<AnalysisEntry>,
    lang: Seq<char>,
    cols: nat,
) -> Seq<char> {
    PROMPT_HEAD@ + spec_history_block(h) + PROMPT_STIMULUS@ + spec_bucket_text(
        spec_bucket(cs, Role::Stimulus, cols),
    ) + PROMPT_WILL@ + spec_bucket_text(spec_bucket(cs, Role::Will, cols)) + PROMPT_SUPPLY@
        + spec_bucket_text(spec_bucket(cs, Role::Supply, cols)) + PROMPT_LANG@ + lang
        + PROMPT_FORMAT@
}

/// Builds the analysis prompt, or decides that there is nothing to analyze.
///
/// Yields `None` exactly when every session's buffered output is empty (all
/// three layer buckets are then empty): the caller must then return the
/// empty result without any network call. Otherwise the prompt holds the
/// recent history, each layer's non-empty sessions, the fixed instruction,
/// and the response language.
pub fn build_analysis_prompt(
    cells: &Vec<CellState>,
    history: &Vec<AnalysisEntry>,
    language: &str,
    cols: usize,
) -> (r: Option<String>)
    ensures
        match r {
            Some(p) => p@ == spec_analysis_prompt(
                cell_views(cells@),
                history@,
                language@,
                cols as nat,
            ) && exists|k: int|
                0 <= k < cells@.len() && #[trigger] cell_views(cells@)[k].last_output.len() > 0,
            None => forall|k: int|
                0 <= k < cells@.len() ==> #[trigger] cell_views(cells@)[k].last_output.len()
                    == 0,
        },
{
    let ghost views = cell_views(cells@);
    let stimuli = bucket_cells(cells, Role::Stimulus, cols);
    let will = bucket_cells(cells, Role::Will, cols);
    let supply = bucket_cells(cells, Role::Supply, cols);

    if stimuli.len() == 0 && will.len() == 0 && supply.len() == 0 {
        proof {
            assert forall|k: int|
                0 <= k < cells@.len() implies #[trigger] views[k].last_output.len() == 0 by {
                if views[k].last_output.len() > 0 {
                    lemma_bucket_of_role_nonempty(views, k, cols as nat);
                    assert(cell_views(stimuli@).len() == 0);
                    assert(cell_views(will@).len() == 0);
                    assert(cell_views(supply@).len() == 0);
                }
            }
        }
        return None;
    }

    proof {
        if cell_views(stimuli@).len() > 0 {
            lemma_bucket_nonempty_witness(views, Role::Stimulus, cols as nat);
        } else if cell_views(will@).len() > 0 {
            lemma_bucket_nonempty_witness(views, Role::Will, cols as nat);
        } else {
            lemma_bucket_nonempty_witness(views, Role::Supply, cols as nat);
        }
    }

    let history_section = format_history(history);
    let mut s = String::from_str(PROMPT_HEAD);
    if !history_section.as_str().is_empty() {
        s.append("## Past Session History\n");
        s.append(history_section.as_str());
        s.append("\n");
    }
    s.append(PROMPT_STIMULUS);
    if stimuli.len() > 0 {
        let t = format_cells(&stimuli);
        s.append(t.as_str());
    } else {
        s.append("(no active cells)");
    }
    s.append(PROMPT_WILL);
    if will.len() > 0 {
        let t = format_cells(&will);
        s.append(t.as_str());
    } else {
        s.append("(no active cells)");
    }
    s.append(PROMPT_SUPPLY);
    if supply.len() > 0 {
        let t = format_cells(&supply);
        s.append(t.as_str());
    } else {
        s.append("(no active cells)");
    }
    s.append(PROMPT_LANG);
    s.append(language);
    s.append(PROMPT_FORMAT);
    proof {
        assert(cell_views(stimuli@).len() == 0 ==> stimuli@.len() == 0);
        assert(s@ =~= spec_analysis_prompt(views, history@, language@, cols as nat));
    }
    Some(s)
}

} // verus!
