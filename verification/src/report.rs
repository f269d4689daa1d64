//! Prompt building for the two file-based review commands: the cross-stream
//! progress summary and the advisor chat. The runtime walks directories and
//! reads file contents; everything that decides what the prompts hold — the
//! per-genre sections, snippet windows, line caps, and the trimming and
//! emptiness test of the reply — is verified here.

use vstd::prelude::*;
use vstd::string::*;
use crate::launch::{all_space, char_is_space, is_space};
use crate::text::{head_chars, push_char, push_u64, spec_head_chars, spec_u64_digits, str_eq};

verus! {

/// Characters of a file's content shown in a summary snippet.
pub const SUMMARY_SNIPPET_CHARS: usize = 1200;

/// Characters of a file's content a chat context snippet may draw on.
pub const CHAT_SNIPPET_CHARS: usize = 600;

/// Lines of a snippet shown in the chat context.
pub const CHAT_SNIPPET_LINES: usize = 8;

/// Files shown per genre in the chat context.
pub const CHAT_FILES_SHOWN: usize = 3;

/// `s` without its leading whitespace.
pub open spec fn spec_trim_start(s: Seq<char>) -> Seq<char>
    decreases s.len(),
{
    if s.len() > 0 && is_space(s[0]) {
        spec_trim_start(s.drop_first())
    } else {
        s
    }
}

/// `s` without its trailing whitespace.
pub open spec fn spec_trim_end(s: Seq<char>) -> Seq<char>
    decreases s.len(),
{
    if s.len() > 0 && is_space(s.last()) {
        spec_trim_end(s.drop_last())
    } else {
        s
    }
}

/// `s` without leading and trailing whitespace.
pub open spec fn spec_trim(s: Seq<char>) -> Seq<char> {
    spec_trim_end(spec_trim_start(s))
}

/// Dropping a whitespace prefix is what trimming the start does.
proof fn lemma_trim_start_skip(s: Seq<char>, f: int)
    requires
        0 <= f <= s.len(),
        forall|j: int| 0 <= j < f ==> is_space(#[trigger] s[j]),
        f == s.len() || !is_space(s[f]),
    ensures
        spec_trim_start(s) == s.skip(f),
    decreases f,
{
    if f == 0 {
        assert(s.skip(0) =~= s);
    } else {
        lemma_trim_start_skip(s.drop_first(), f - 1);
        assert(s.drop_first().skip(f - 1) =~= s.skip(f));
    }
}

/// Dropping a whitespace suffix is what trimming the end does.
proof fn lemma_trim_end_take(s: Seq<char>, l: int)
    requires
        0 <= l <= s.len(),
        forall|j: int| l <= j < s.len() ==> is_space(#[trigger] s[j]),
        l == 0 || !is_space(s[l - 1]),
    ensures
        spec_trim_end(s) == s.take(l),
    decreases s.len() - l,
{
    if l == s.len() {
        assert(s.take(l) =~= s);
    } else {
        lemma_trim_end_take(s.drop_last(), l);
        assert(s.drop_last().take(l) =~= s.take(l));
    }
}

/// Trims whitespace from both ends of `text`; yields the trimmed text when
/// anything is left, and nothing when the text was all whitespace — the
/// emptiness test the review commands apply to the capability's reply.
pub fn trim_nonempty(text: &str) -> (r: Option<String>)
    ensures
        r is Some <==> !all_space(text@),
        match r {
            Some(t) => t@ == spec_trim(text@) && t@.len() > 0,
            None => spec_trim(text@).len() == 0,
        },
{
    let n = text.unicode_len();
    let mut f: usize = 0;
    while f < n && char_is_space(text.get_char(f))
        invariant
            0 <= f <= n,
            n == text@.len(),
            forall|j: int| 0 <= j < f ==> is_space(#[trigger] text@[j]),
        decreases n - f,
    {
        f = f + 1;
    }
    if f == n {
        proof {
            lemma_trim_start_skip(text@, n as int);
            assert(text@.skip(n as int).len() == 0);
            assert(spec_trim(text@).len() == 0);
        }
        return None;
    }
    let mut l: usize = n;
    while l > f && char_is_space(text.get_char(l - 1))
        invariant
            f <= l <= n,
            n == text@.len(),
            forall|j: int| l <= j < n ==> is_space(#[trigger] text@[j]),
        decreases l,
    {
        l = l - 1;
    }
    proof {
        assert(!is_space(text@[f as int]));
        assert(!is_space(text@[l as int - 1]));
        lemma_trim_start_skip(text@, f as int);
        lemma_trim_end_take(text@.skip(f as int), l - f as int);
        assert(text@.skip(f as int).take(l - f as int) =~= text@.subrange(f as int, l as int));
        assert(text@[f as int] == text@.subrange(f as int, n as int)[0]);
    }
    let t = text.substring_char(f, l);
    Some(t.to_owned())
}

/// One file name line of a genre section.
pub open spec fn spec_file_line(name: Seq<char>) -> Seq<char> {
    "  - "@ + name
}

/// The file name lines of a genre section, one per file.
pub open spec fn spec_file_lines(names: Seq<String>) -> Seq<char>
    decreases names.len(),
{
    if names.len() == 0 {
        Seq::empty()
    } else if names.len() == 1 {
        spec_file_line(names[0]@)
    } else {
        spec_file_lines(names.drop_last()) + "\n"@ + spec_file_line(names.last()@)
    }
}

/// One rendered content snippet: the file's name under a rule, then the
/// leading window of its content.
pub open spec fn spec_snippet_block(name: Seq<char>, content: Seq<char>) -> Seq<char> {
    "--- "@ + name + "\n"@ + spec_head_chars(content, SUMMARY_SNIPPET_CHARS as int)
}

/// The rendered content snippets, separated by blank lines.
pub open spec fn spec_snippet_blocks(snippets: Seq<(String, String)>) -> Seq<char>
    decreases snippets.len(),
{
    if snippets.len() == 0 {
        Seq::empty()
    } else if snippets.len() == 1 {
        spec_snippet_block(snippets[0].0@, snippets[0].1@)
    } else {
        spec_snippet_blocks(snippets.drop_last()) + "\n\n"@ + spec_snippet_block(
            snippets.last().0@,
            snippets.last().1@,
        )
    }
}

/// One genre's section of the summary prompt: a marker when it has no files,
/// otherwise its file list and the leading windows of its recent contents.
pub open spec fn spec_genre_section(
    name: Seq<char>,
    file_names: Seq<String>,
    snippets: Seq<(String, String)>,
) -> Seq<char> {
    if file_names.len() == 0 {
        "=== "@ + name + " ===\n(no files)"@
    } else {
        "=== "@ + name + " ===\nFiles ("@ + spec_u64_digits(file_names.len() as u64)
            + " total):\n"@ + spec_file_lines(file_names) + "\n\nRecent content:\n"@
            + spec_snippet_blocks(snippets)
    }
}

/// Renders one genre's section of the summary prompt from its name, the
/// names of its files (newest first), and the contents of the files whose
/// snippets are shown.
pub fn format_genre_section(
    name: &str,
    file_names: &Vec<String>,
    snippets: &Vec<(String, String)>,
) -> (r: String)
    ensures
        r@ == spec_genre_section(name@, file_names@, snippets@),
{
    let mut s = String::from_str("=== ");
    s.append(name);
    if file_names.len() == 0 {
        s.append(" ===\n(no files)");
        proof {
            assert(s@ =~= spec_genre_section(name@, file_names@, snippets@));
        }
        return s;
    }
    s.append(" ===\nFiles (");
    push_u64(&mut s, file_names.len() as u64);
    s.append(" total):\n");
    let n = file_names.len();
    let mut i: usize = 0;
    let ghost before = s@;
    while i < n
        invariant
            0 <= i <= n,
            n == file_names@.len(),
            s@ == before + spec_file_lines(file_names@.take(i as int)),
        decreases n - i,
    {
        if i > 0 {
            push_char(&mut s, '\n');
        }
        s.append("  - ");
        s.append(file_names[i].as_str());
        proof {
            reveal_strlit("\n");
            assert(seq!['\n'] =~= "\n"@);
            let t = file_names@.take(i as int + 1);
            assert(t.drop_last() =~= file_names@.take(i as int));
            assert(t.last() == file_names@[i as int]);
            assert(s@ =~= before + spec_file_lines(t));
        }
        i = i + 1;
    }
    proof {
        assert(file_names@.take(n as int) =~= file_names@);
    }
    s.append("\n\nRecent content:\n");
    let m = snippets.len();
    let mut k: usize = 0;
    let ghost before2 = s@;
    while k < m
        invariant
            0 <= k <= m,
            m == snippets@.len(),
            s@ == before2 + spec_snippet_blocks(snippets@.take(k as int)),
        decreases m - k,
    {
        if k > 0 {
            s.append("\n\n");
        }
        s.append("--- ");
        s.append(snippets[k].0.as_str());
        push_char(&mut s, '\n');
        let window = head_chars(snippets[k].1.as_str(), SUMMARY_SNIPPET_CHARS);
        s.append(window.as_str());
        proof {
            reveal_strlit("\n");
            assert(seq!['\n'] =~= "\n"@);
            let t = snippets@.take(k as int + 1);
            assert(t.drop_last() =~= snippets@.take(k as int));
            assert(t.last() == snippets@[k as int]);
            assert(s@ =~= before2 + spec_snippet_blocks(t));
        }
        k = k + 1;
    }
    proof {
        assert(snippets@.take(m as int) =~= snippets@);
        assert(s@ =~= spec_genre_section(name@, file_names@, snippets@));
    }
    s
}

/// Genre sections joined by blank lines.
pub open spec fn spec_joined_sections(sections: Seq<String>) -> Seq<char>
    decreases sections.len(),
{
    if sections.len() == 0 {
        Seq::empty()
    } else if sections.len() == 1 {
        sections[0]@
    } else {
        spec_joined_sections(sections.drop_last()) + "\n\n"@ + sections.last()@
    }
}

/// The fixed instruction of the summary prompt.
pub const SUMMARY_HEAD: &'static str = "You are reviewing AI agent work output across multiple streams (stimulus=research/input, will=planning, supply=deliverables).\nWrite 2-3 concise sentences summarizing the overall progress: what has been accomplished, what is in progress, and what comes next.\nBe specific and chronological. No filler phrases. Plain text only, no markdown, no bullet points.\n\n";

/// The whole summary prompt over the rendered genre sections and the
/// response language.
pub open spec fn spec_summary_prompt(sections: Seq<String>, lang: Seq<char>) -> Seq<char> {
    SUMMARY_HEAD@ + spec_joined_sections(sections) + "\n\nRespond in: "@ + lang
}

/// Joins rendered sections by blank lines.
pub fn join_sections(sections: &Vec<String>) -> (r: String)
    ensures
        r@ == spec_joined_sections(sections@),
{
    let mut s = String::new();
    let n = sections.len();
    let mut i: usize = 0;
    while i < n
        invariant
            0 <= i <= n,
            n == sections@.len(),
            s@ == spec_joined_sections(sections@.take(i as int)),
        decreases n - i,
    {
        if i > 0 {
            s.append("\n\n");
        }
        s.append(sections[i].as_str());
        proof {
            let t = sections@.take(i as int + 1);
            assert(t.drop_last() =~= sections@.take(i as int));
            assert(t.last() == sections@[i as int]);
            assert(s@ =~= spec_joined_sections(t));
        }
        i = i + 1;
    }
    proof {
        assert(sections@.take(n as int) =~= sections@);
    }
    s
}

/// Builds the summary prompt from the rendered genre sections.
pub fn build_summary_prompt(sections: &Vec<String>, language: &str) -> (r: String)
    ensures
        r@ == spec_summary_prompt(sections@, language@),
{
    let mut s = String::from_str(SUMMARY_HEAD);
    let joined = join_sections(sections);
    s.append(joined.as_str());
    s.append("\n\nRespond in: ");
    s.append(language);
    proof {
        assert(s@ =~= spec_summary_prompt(sections@, language@));
    }
    s
}

/// The position right after the `k`-th line break of `s`, or the length when
/// `s` has fewer.
pub open spec fn spec_line_cut(s: Seq<char>, k: int) -> int
    decreases s.len(),
{
    if k <= 0 || s.len() == 0 {
        0
    } else if s[0] == '\n' {
        1 + spec_line_cut(s.drop_first(), k - 1)
    } else {
        1 + spec_line_cut(s.drop_first(), k)
    }
}

/// The first `k` lines of `s`, without a trailing line break: the prefix up
/// to (excluding) the `k`-th line break, or all of `s` minus one trailing
/// line break when it has fewer. Lines are cut at line-feed characters.
pub open spec fn spec_first_lines(s: Seq<char>, k: int) -> Seq<char> {
    let cut = spec_line_cut(s, k);
    if cut > 0 && s[cut - 1] == '\n' {
        s.take(cut - 1)
    } else {
        s.take(cut)
    }
}

/// Takes the first `k` lines of `s`, without a trailing line break.
pub fn first_lines(s: &str, k: usize) -> (r: String)
    ensures
        r@ == spec_first_lines(s@, k as int),
{
    let n = s.unicode_len();
    let mut i: usize = 0;
    let mut seen: usize = 0;
    proof {
        assert(s@.skip(0) =~= s@);
    }
    while i < n && seen < k
        invariant
            0 <= i <= n,
            n == s@.len(),
            0 <= seen <= k,
            spec_line_cut(s@, k as int) == i + spec_line_cut(
                s@.skip(i as int),
                k as int - seen,
            ),
            seen == k && seen > 0 ==> i > 0 && s@[i as int - 1] == '\n',
        decreases n - i,
    {
        proof {
            assert(s@.skip(i as int)[0] == s@[i as int]);
            assert(s@.skip(i as int).drop_first() =~= s@.skip(i as int + 1));
        }
        if s.get_char(i) == '\n' {
            seen = seen + 1;
        }
        i = i + 1;
    }
    proof {
        if i == n {
            assert(s@.skip(n as int).len() == 0);
        }
        assert(spec_line_cut(s@, k as int) == i as int);
    }
    if i > 0 && s.get_char(i - 1) == '\n' {
        let t = s.substring_char(0, i - 1);
        proof {
            assert(s@.subrange(0, i as int - 1) =~= s@.take(i as int - 1));
        }
        t.to_owned()
    } else {
        let t = s.substring_char(0, i);
        proof {
            assert(s@.subrange(0, i as int) =~= s@.take(i as int));
        }
        t.to_owned()
    }
}

/// The capability-side name of a chat participant: the user's turns keep
/// their name, every other role is the model's.
pub fn chat_role(role: &str) -> (r: String)
    ensures
        role@ == "user"@ ==> r@ == "user"@,
        role@ != "user"@ ==> r@ == "model"@,
{
    if str_eq(role, "user") {
        String::from_str("user")
    } else {
        String::from_str("model")
    }
}

/// The fixed opening of the chat system text.
pub const CHAT_HEAD: &'static str = "You are a strategic advisor embedded in Chaos Grid, a multi-agent productivity tool.\nWork streams: Stimulus (research/input) \u{2192} Will (planning) \u{2192} Supply (deliverables).\nYour role: help the user understand current progress, identify bottlenecks, and decide next actions.\nBe concise and specific. No filler. Respond in: ";

/// The chat system text over the response language and the rendered project
/// context.
pub open spec fn spec_chat_system_text(lang: Seq<char>, context: Seq<char>) -> Seq<char> {
    CHAT_HEAD@ + lang + "\n\nCurrent project state:\n"@ + context
}

/// Builds the chat system text: the fixed advisor instruction, the response
/// language, and the rendered project context.
pub fn build_chat_system_text(language: &str, context: &str) -> (r: String)
    ensures
        r@ == spec_chat_system_text(language@, context@),
{
    let mut s = String::from_str(CHAT_HEAD);
    s.append(language);
    s.append("\n\nCurrent project state:\n");
    s.append(context);
    proof {
        assert(s@ =~= spec_chat_system_text(language@, context@));
    }
    s
}

/// One file item of the chat context: its name, then at most
/// `CHAT_SNIPPET_LINES` lines of the leading `CHAT_SNIPPET_CHARS` characters
/// of its content.
pub open spec fn spec_chat_item(name: Seq<char>, content: Seq<char>) -> Seq<char> {
    "  - "@ + name + "\n"@ + spec_first_lines(
        spec_head_chars(content, CHAT_SNIPPET_CHARS as int),
        CHAT_SNIPPET_LINES as int,
    )
}

/// The file items of one chat genre, one per line.
pub open spec fn spec_chat_items(files: Seq<(String, String)>) -> Seq<char>
    decreases files.len(),
{
    if files.len() == 0 {
        Seq::empty()
    } else if files.len() == 1 {
        spec_chat_item(files[0].0@, files[0].1@)
    } else {
        spec_chat_items(files.drop_last()) + "\n"@ + spec_chat_item(
            files.last().0@,
            files.last().1@,
        )
    }
}

/// One genre's block of the chat context: a marker when it has no files,
/// otherwise its file count and the items of its first `CHAT_FILES_SHOWN`
/// files.
pub open spec fn spec_chat_genre(name: Seq<char>, files: Seq<(String, String)>) -> Seq<char> {
    if files.len() == 0 {
        "["@ + name + "]: no files yet"@
    } else {
        let shown = if files.len() <= CHAT_FILES_SHOWN {
            files
        } else {
            files.take(CHAT_FILES_SHOWN as int)
        };
        "["@ + name + "]: "@ + spec_u64_digits(files.len() as u64) + " file(s)\n"@
            + spec_chat_items(shown)
    }
}

/// Renders one genre's block of the chat context from its name and its
/// files' names and contents (ordered by name).
pub fn format_chat_genre(name: &str, files: &Vec<(String, String)>) -> (r: String)
    ensures
        r@ == spec_chat_genre(name@, files@),
{
    let mut s = String::from_str("[");
    s.append(name);
    if files.len() == 0 {
        s.append("]: no files yet");
        proof {
            assert(s@ =~= spec_chat_genre(name@, files@));
        }
        return s;
    }
    s.append("]: ");
    push_u64(&mut s, files.len() as u64);
    s.append(" file(s)\n");
    let shown: usize = if files.len() <= CHAT_FILES_SHOWN {
        files.len()
    } else {
        CHAT_FILES_SHOWN
    };
    let ghost shown_files = if files@.len() <= CHAT_FILES_SHOWN {
        files@
    } else {
        files@.take(CHAT_FILES_SHOWN as int)
    };
    proof {
        if files@.len() <= CHAT_FILES_SHOWN {
            assert(shown_files =~= files@.take(shown as int));
        }
    }
    let ghost before = s@;
    let mut i: usize = 0;
    while i < shown
        invariant
            0 <= i <= shown,
            shown <= files@.len(),
            shown_files == files@.take(shown as int),
            s@ == before + spec_chat_items(files@.take(shown as int).take(i as int)),
        decreases shown - i,
    {
        if i > 0 {
            push_char(&mut s, '\n');
        }
        s.append("  - ");
        s.append(files[i].0.as_str());
        push_char(&mut s, '\n');
        let window = head_chars(files[i].1.as_str(), CHAT_SNIPPET_CHARS);
        let lines = first_lines(window.as_str(), CHAT_SNIPPET_LINES);
        s.append(lines.as_str());
        proof {
            reveal_strlit("\n");
            assert(seq!['\n'] =~= "\n"@);
            let w = files@.take(shown as int);
            let t = w.take(i as int + 1);
            assert(t.drop_last() =~= w.take(i as int));
            assert(t.last() == files@[i as int]);
            assert(s@ =~= before + spec_chat_items(t));
        }
        i = i + 1;
    }
    proof {
        let w = files@.take(shown as int);
        assert(w.take(shown as int) =~= w);
        assert(s@ =~= spec_chat_genre(name@, files@));
    }
    s
}

} // verus!
