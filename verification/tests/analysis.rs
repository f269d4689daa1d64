use chaos_grid::analysis::{
    assemble_result, empty_result, extract_json_object, make_history_entry,
    parse_analysis_response, record_analysis,
};
use chaos_grid::history::AnalysisEntry;
use chaos_grid::prompt::{build_analysis_prompt, format_cells, format_history};
use chaos_grid::report::{
    build_chat_system_text, build_summary_prompt, chat_role, first_lines, format_genre_section,
    trim_nonempty,
};
use chaos_grid::session::{CellState, Status};

fn cell(i: usize, theme: &str, output: &str) -> CellState {
    CellState {
        id: format!("slot-{}", i),
        theme: theme.to_string(),
        pid: None,
        last_output: output.to_string(),
        status: Status::Idle,
        updated_at: 0,
    }
}

#[test]
fn extraction_keeps_only_the_braced_region() {
    assert_eq!(
        extract_json_object("Sure! {\"summaries\":{},\"ideas\":[\"x\"]} thanks"),
        Some("{\"summaries\":{},\"ideas\":[\"x\"]}".to_string())
    );
    assert_eq!(extract_json_object("no braces at all"), None);
    assert_eq!(extract_json_object("} reversed {"), None);
    assert_eq!(extract_json_object("{}"), Some("{}".to_string()));
    assert_eq!(extract_json_object("only open {"), None);
}

#[test]
fn prose_around_json_is_tolerated() {
    let r = parse_analysis_response("Sure! {\"summaries\":{},\"ideas\":[\"x\"]} thanks");
    assert!(r.summaries.is_empty());
    assert_eq!(r.ideas, vec!["x".to_string()]);
    assert!(r.flow.is_none());
}

#[test]
fn reply_without_braces_is_empty_result() {
    let r = parse_analysis_response("I could not produce JSON this time.");
    assert!(r.summaries.is_empty());
    assert!(r.ideas.is_empty());
    assert!(r.flow.is_none());
}

#[test]
fn malformed_json_degrades_to_empty_result() {
    let r = parse_analysis_response("{not json at all]}");
    assert!(r.summaries.is_empty());
    assert!(r.ideas.is_empty());
    assert!(r.flow.is_none());
}

#[test]
fn summaries_and_ideas_are_decoded() {
    let r = parse_analysis_response(
        "{\"summaries\":{\"slot-0\":\"reading\",\"slot-1\":\"drafting\"},\"ideas\":[\"a\",\"b\"]}",
    );
    let mut summaries = r.summaries.clone();
    summaries.sort();
    assert_eq!(
        summaries,
        vec![
            ("slot-0".to_string(), "reading".to_string()),
            ("slot-1".to_string(), "drafting".to_string()),
        ]
    );
    assert_eq!(r.ideas, vec!["a".to_string(), "b".to_string()]);
}

#[test]
fn mismatched_shapes_default_to_empty() {
    // A non-string summary value spoils the whole mapping.
    let r = parse_analysis_response("{\"summaries\":{\"slot-0\":1},\"ideas\":\"x\"}");
    assert!(r.summaries.is_empty());
    assert!(r.ideas.is_empty());
    // A non-object summaries field likewise.
    let r = parse_analysis_response("{\"summaries\":[1,2]}");
    assert!(r.summaries.is_empty());
}

#[test]
fn complete_flow_object_is_kept() {
    let r = parse_analysis_response(
        "{\"flow\":{\"stimuli_to_will\":\"yes\",\"will_to_supply\":\"partly\",\"stuck\":\"none\",\"next\":\"ship\"}}",
    );
    let f = r.flow.expect("flow should be present");
    assert_eq!(f.stimuli_to_will, "yes");
    assert_eq!(f.will_to_supply, "partly");
    assert_eq!(f.stuck, "none");
    assert_eq!(f.next, "ship");
}

#[test]
fn partial_flow_object_is_dropped_whole() {
    // One of the four fields is missing: the flow is absent, not partial.
    let r = parse_analysis_response(
        "{\"flow\":{\"stimuli_to_will\":\"yes\",\"will_to_supply\":\"partly\",\"stuck\":\"none\"}}",
    );
    assert!(r.flow.is_none());
    // A non-string field counts as missing.
    let r = parse_analysis_response(
        "{\"flow\":{\"stimuli_to_will\":\"yes\",\"will_to_supply\":\"partly\",\"stuck\":\"none\",\"next\":3}}",
    );
    assert!(r.flow.is_none());
}

#[test]
fn assembling_requires_all_four_flow_fields() {
    let r = assemble_result(
        None,
        None,
        Some("a".to_string()),
        Some("b".to_string()),
        Some("c".to_string()),
        None,
    );
    assert!(r.flow.is_none());
    assert!(r.summaries.is_empty());
    assert!(r.ideas.is_empty());
    let r = assemble_result(
        Some(vec![("slot-0".to_string(), "s".to_string())]),
        Some(vec!["i".to_string()]),
        Some("a".to_string()),
        Some("b".to_string()),
        Some("c".to_string()),
        Some("d".to_string()),
    );
    assert_eq!(r.summaries.len(), 1);
    assert_eq!(r.ideas, vec!["i".to_string()]);
    assert!(r.flow.is_some());
}

#[test]
fn all_empty_sessions_build_no_prompt() {
    let cells: Vec<CellState> = (0..9).map(|i| cell(i, "t", "")).collect();
    let history: Vec<AnalysisEntry> = Vec::new();
    assert!(build_analysis_prompt(&cells, &history, "English", 3).is_none());
    let r = empty_result();
    assert!(r.summaries.is_empty() && r.ideas.is_empty() && r.flow.is_none());
}

#[test]
fn prompt_holds_the_nonempty_layers() {
    let mut cells: Vec<CellState> = (0..9).map(|i| cell(i, "t", "")).collect();
    cells[2] = cell(2, "inbox", "fresh stimulus output");
    cells[0] = cell(0, "drafts", "supply output");
    let history: Vec<AnalysisEntry> = Vec::new();
    let p = build_analysis_prompt(&cells, &history, "English", 3).expect("prompt expected");
    assert!(p.starts_with("You are an AI called \"Command\""));
    assert!(p.contains("### Stimulus Layer (what is being received from outside)\n  [inbox]\nfresh stimulus output"));
    assert!(p.contains("### Supply Layer (what is being created and shipped)\n  [drafts]\nsupply output"));
    // The Will layer has no active sessions.
    assert!(p.contains("### Will Layer (what is being internalized)\n(no active cells)"));
    assert!(p.contains("Respond entirely in: English"));
    assert!(p.contains("## Output format (JSON only, no markdown)"));
    // No history: the history heading is absent.
    assert!(!p.contains("## Past Session History"));
}

#[test]
fn prompt_shows_recent_history() {
    let cells: Vec<CellState> = vec![cell(0, "t", "work")];
    let history = vec![AnalysisEntry {
        timestamp: "2024-01-01T00:00:00.000Z".to_string(),
        summaries: vec![("slot-0".to_string(), "was reading".to_string())],
        themes: vec![("slot-0".to_string(), "inbox".to_string())],
        ideas: Vec::new(),
    }];
    let p = build_analysis_prompt(&cells, &history, "English", 3).expect("prompt expected");
    assert!(p.contains("## Past Session History\n2024-01-01T00:00:00.000Z\n  [inbox] was reading\n"));
}

#[test]
fn history_rendering_is_exact() {
    let history = vec![
        AnalysisEntry {
            timestamp: "t1".to_string(),
            summaries: vec![
                ("slot-0".to_string(), "a".to_string()),
                ("slot-1".to_string(), "b".to_string()),
            ],
            themes: vec![("slot-0".to_string(), "inbox".to_string())],
            ideas: Vec::new(),
        },
        AnalysisEntry {
            timestamp: "t2".to_string(),
            summaries: vec![("slot-2".to_string(), "c".to_string())],
            themes: Vec::new(),
            ideas: Vec::new(),
        },
    ];
    // A session without a recorded label is shown under its id.
    assert_eq!(
        format_history(&history),
        "t1\n  [inbox] a\n  [slot-1] b\n\nt2\n  [slot-2] c"
    );
    assert_eq!(format_history(&Vec::new()), "");
}

#[test]
fn history_rendering_shows_last_five() {
    let mut history = Vec::new();
    for i in 0..8 {
        history.push(AnalysisEntry {
            timestamp: format!("t{}", i),
            summaries: Vec::new(),
            themes: Vec::new(),
            ideas: Vec::new(),
        });
    }
    let rendered = format_history(&history);
    assert!(!rendered.contains("t2"));
    assert!(rendered.contains("t3"));
    assert!(rendered.contains("t7"));
}

#[test]
fn cell_rendering_windows_output() {
    let long = "x".repeat(650);
    let cells = vec![cell(0, "inbox", &long), cell(1, "", "short")];
    let rendered = format_cells(&cells);
    let expected_window = "x".repeat(600);
    assert_eq!(
        rendered,
        format!("  [inbox]\n{}\n---\n  []\nshort", expected_window)
    );
}

#[test]
fn history_entry_records_labels_at_time_of_entry() {
    let cells = vec![cell(0, "inbox", ""), cell(1, "drafts", "")];
    let r = assemble_result(
        Some(vec![("slot-0".to_string(), "s".to_string())]),
        Some(vec!["idea".to_string()]),
        None,
        None,
        None,
        None,
    );
    let e = make_history_entry("ts".to_string(), &r, &cells);
    assert_eq!(e.timestamp, "ts");
    assert_eq!(e.summaries, vec![("slot-0".to_string(), "s".to_string())]);
    assert_eq!(e.ideas, vec!["idea".to_string()]);
    assert_eq!(
        e.themes,
        vec![
            ("slot-0".to_string(), "inbox".to_string()),
            ("slot-1".to_string(), "drafts".to_string()),
        ]
    );
}

#[test]
fn every_run_is_recorded_even_an_empty_one() {
    let cells = vec![cell(0, "inbox", "")];
    let mut history = Vec::new();
    record_analysis(&mut history, "ts".to_string(), &empty_result(), &cells);
    assert_eq!(history.len(), 1);
    assert_eq!(history[0].timestamp, "ts");
    assert!(history[0].summaries.is_empty());
    assert!(history[0].ideas.is_empty());
    assert_eq!(
        history[0].themes,
        vec![("slot-0".to_string(), "inbox".to_string())]
    );
}

#[test]
fn trimming_rejects_blank_replies() {
    assert_eq!(trim_nonempty("  hello world \n"), Some("hello world".to_string()));
    assert_eq!(trim_nonempty("ok"), Some("ok".to_string()));
    assert_eq!(trim_nonempty("   \n\t "), None);
    assert_eq!(trim_nonempty(""), None);
}

#[test]
fn genre_sections_render_files_and_snippets() {
    assert_eq!(
        format_genre_section("notes", &Vec::new(), &Vec::new()),
        "=== notes ===\n(no files)"
    );
    let names = vec!["b.md".to_string(), "a.md".to_string()];
    let snippets = vec![("b.md".to_string(), "content".to_string())];
    assert_eq!(
        format_genre_section("notes", &names, &snippets),
        "=== notes ===\nFiles (2 total):\n  - b.md\n  - a.md\n\nRecent content:\n--- b.md\ncontent"
    );
}

#[test]
fn summary_prompt_joins_sections() {
    let sections = vec!["=== a ===".to_string(), "=== b ===".to_string()];
    let p = build_summary_prompt(&sections, "English");
    assert!(p.starts_with("You are reviewing AI agent work output"));
    assert!(p.contains("=== a ===\n\n=== b ==="));
    assert!(p.ends_with("\n\nRespond in: English"));
}

#[test]
fn snippet_lines_are_capped() {
    assert_eq!(first_lines("a\nb\nc\nd", 2), "a\nb");
    assert_eq!(first_lines("a\nb\n", 8), "a\nb");
    assert_eq!(first_lines("single", 8), "single");
    assert_eq!(first_lines("a\nb", 0), "");
}

#[test]
fn chat_roles_map_to_capability_names() {
    assert_eq!(chat_role("user"), "user");
    assert_eq!(chat_role("assistant"), "model");
    assert_eq!(chat_role("model"), "model");
}

#[test]
fn chat_system_text_holds_context() {
    let t = build_chat_system_text("English", "[notes]: no files yet");
    assert!(t.starts_with("You are a strategic advisor embedded in Chaos Grid"));
    assert!(t.contains("Respond in: English\n\nCurrent project state:\n[notes]: no files yet"));
}
