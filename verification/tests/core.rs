use chaos_grid::buffer::{append_chunk, truncate_for_save};
use chaos_grid::clock::{days_to_date, iso_from_secs};
use chaos_grid::env::sanitize_env;
use chaos_grid::files::{cap_newest_first, FileEntry};
use chaos_grid::history::{append_entry, AnalysisEntry};
use chaos_grid::launch::{expand_tilde_with, make_launch_command, plan_launch};
use chaos_grid::role::{cell_index, get_cell_role, Role};
use chaos_grid::session::{slot_id, sort_cells_by_id, Multiplexer, Status};
use chaos_grid::text::{head_chars, str_eq, tail_chars, u64_to_string};
use chaos_grid::{BUFFER_LIMIT, MAX_CELLS, MAX_HISTORY, MAX_OUTPUT_CHARS};

fn entry(ts: &str) -> AnalysisEntry {
    AnalysisEntry {
        timestamp: ts.to_string(),
        summaries: Vec::new(),
        themes: Vec::new(),
        ideas: Vec::new(),
    }
}

#[test]
fn init_starts_idle_with_restored_buffers() {
    let saved = vec![
        ("slot-3".to_string(), "hello".to_string()),
        ("unrelated".to_string(), "x".to_string()),
    ];
    let m = Multiplexer::new(&saved, 5);
    let cells = m.get_cells();
    assert_eq!(cells.len(), MAX_CELLS);
    for (i, c) in cells.iter().enumerate() {
        assert_eq!(c.id, format!("slot-{}", i));
        assert_eq!(c.status, Status::Idle);
        assert_eq!(c.pid, None);
        assert_eq!(c.theme, "");
        assert_eq!(c.updated_at, 5);
        if i == 3 {
            assert_eq!(c.last_output, "hello");
        } else {
            assert_eq!(c.last_output, "");
        }
    }
}

#[test]
fn spawn_twice_replaces_engine() {
    let m = &mut Multiplexer::new(&Vec::new(), 0);
    let prior = m.begin_spawn(4, 1);
    assert_eq!(prior, None);
    m.commit_spawn(4, 101, 2);
    let cells = m.get_cells();
    assert_eq!(cells[4].pid, Some(101));
    assert_eq!(cells[4].status, Status::Active);

    // Respawning hands back the first engine's pid for signaling and leaves
    // exactly the second engine attached.
    let prior = m.begin_spawn(4, 3);
    assert_eq!(prior, Some(101));
    m.commit_spawn(4, 102, 4);
    let cells = m.get_cells();
    assert_eq!(cells[4].pid, Some(102));
    assert_eq!(cells[4].status, Status::Active);
    assert_eq!(cells[4].updated_at, 4);
}

#[test]
fn write_without_engine_is_silent_noop() {
    let m = Multiplexer::new(&Vec::new(), 0);
    assert_eq!(m.attached_slot("slot-2"), None);
    assert_eq!(m.attached_slot("no-such-session"), None);
    // The state is untouched: still idle everywhere.
    for c in m.get_cells() {
        assert_eq!(c.status, Status::Idle);
    }
}

#[test]
fn write_with_engine_names_the_slot() {
    let m = &mut Multiplexer::new(&Vec::new(), 0);
    m.begin_spawn(2, 1);
    m.commit_spawn(2, 55, 1);
    assert_eq!(m.attached_slot("slot-2"), Some(2));
    assert_eq!(m.attached_slot("slot-1"), None);
}

#[test]
fn terminate_clears_slot() {
    let m = &mut Multiplexer::new(&Vec::new(), 0);
    m.begin_spawn(1, 1);
    m.commit_spawn(1, 77, 1);
    let killed = m.terminate("slot-1", 9);
    assert_eq!(killed, Some(77));
    let cells = m.get_cells();
    assert_eq!(cells[1].pid, None);
    assert_eq!(cells[1].status, Status::Idle);
    assert_eq!(cells[1].updated_at, 9);
    // Terminating again is a silent no-op.
    assert_eq!(m.terminate("slot-1", 10), None);
    // An unknown id is a silent no-op.
    assert_eq!(m.terminate("elsewhere", 11), None);
}

#[test]
fn terminate_all_clears_every_engine() {
    let m = &mut Multiplexer::new(&Vec::new(), 0);
    m.begin_spawn(0, 1);
    m.commit_spawn(0, 10, 1);
    m.begin_spawn(7, 1);
    m.commit_spawn(7, 70, 1);
    let killed = m.terminate_all(5);
    assert_eq!(killed, vec![10, 70]);
    let cells = m.get_cells();
    for (i, c) in cells.iter().enumerate() {
        assert_eq!(c.pid, None);
        assert_eq!(c.status, Status::Idle);
        if i == 0 || i == 7 {
            assert_eq!(c.updated_at, 5);
        } else {
            assert_eq!(c.updated_at, 0);
        }
    }
}

#[test]
fn output_marks_attached_sessions_active() {
    let m = &mut Multiplexer::new(&Vec::new(), 0);
    // Without an engine the buffer grows but the slot stays idle.
    m.on_output(3, "abc", 2);
    let cells = m.get_cells();
    assert_eq!(cells[3].last_output, "abc");
    assert_eq!(cells[3].status, Status::Idle);
    assert_eq!(cells[3].updated_at, 2);
    // With an engine the slot is marked active.
    m.begin_spawn(3, 3);
    m.commit_spawn(3, 9, 3);
    m.on_output(3, "def", 4);
    let cells = m.get_cells();
    assert_eq!(cells[3].last_output, "abcdef");
    assert_eq!(cells[3].status, Status::Active);
}

#[test]
fn set_theme_updates_label() {
    let m = &mut Multiplexer::new(&Vec::new(), 0);
    m.set_theme("slot-5", "research".to_string(), 8);
    let cells = m.get_cells();
    assert_eq!(cells[5].theme, "research");
    assert_eq!(cells[5].updated_at, 8);
    m.set_theme("unknown", "x".to_string(), 9);
    assert_eq!(m.get_cells()[5].theme, "research");
}

#[test]
fn buffer_trims_to_ceiling_at_twice_the_limit() {
    let mut buf = String::new();
    append_chunk(&mut buf, &"a".repeat(2 * BUFFER_LIMIT));
    assert_eq!(buf.chars().count(), 2 * BUFFER_LIMIT);
    // One character more passes twice the ceiling and trims to the ceiling.
    append_chunk(&mut buf, "b");
    assert_eq!(buf.chars().count(), BUFFER_LIMIT);
    assert!(buf.ends_with('b'));
}

#[test]
fn buffer_trim_never_splits_multibyte_characters() {
    let mut buf = String::new();
    // Each of these characters is multi-byte in UTF-8.
    for _ in 0..(2 * BUFFER_LIMIT + 7) {
        append_chunk(&mut buf, "\u{3042}");
    }
    assert!(buf.chars().count() <= 2 * BUFFER_LIMIT);
    assert!(buf.chars().all(|c| c == '\u{3042}'));
    // The buffer is valid text by construction; re-encoding round-trips.
    let bytes = buf.as_bytes().to_vec();
    assert!(String::from_utf8(bytes).is_ok());
}

#[test]
fn persisted_copy_is_capped() {
    let long = "x".repeat(MAX_OUTPUT_CHARS + 123);
    let saved = truncate_for_save(&long);
    assert_eq!(saved.chars().count(), MAX_OUTPUT_CHARS);
    let short = truncate_for_save("tail");
    assert_eq!(short, "tail");
}

#[test]
fn history_appending_twenty_first_evicts_oldest() {
    let mut h: Vec<AnalysisEntry> = Vec::new();
    for i in 0..MAX_HISTORY {
        append_entry(&mut h, entry(&format!("t{}", i)));
    }
    assert_eq!(h.len(), MAX_HISTORY);
    assert_eq!(h[0].timestamp, "t0");
    append_entry(&mut h, entry("fresh"));
    assert_eq!(h.len(), MAX_HISTORY);
    assert_eq!(h[0].timestamp, "t1");
    assert_eq!(h[MAX_HISTORY - 1].timestamp, "fresh");
}

#[test]
fn roles_cycle_over_the_grid() {
    let expected = [
        Role::Supply,
        Role::Will,
        Role::Stimulus,
        Role::Supply,
        Role::Will,
        Role::Stimulus,
        Role::Supply,
        Role::Will,
        Role::Stimulus,
    ];
    for i in 0..9 {
        let id = format!("slot-{}", i);
        assert_eq!(get_cell_role(&id, 3), expected[i]);
    }
}

#[test]
fn role_of_narrow_and_wide_grids() {
    // A one-column grid puts everything in Stimulus.
    assert_eq!(get_cell_role("slot-0", 1), Role::Stimulus);
    assert_eq!(get_cell_role("slot-1", 1), Role::Stimulus);
    // Column count zero is clamped to one.
    assert_eq!(get_cell_role("slot-4", 0), Role::Stimulus);
    // Two columns: left Will, right Stimulus.
    assert_eq!(get_cell_role("slot-0", 2), Role::Will);
    assert_eq!(get_cell_role("slot-1", 2), Role::Stimulus);
}

#[test]
fn cell_index_reads_decimal_suffix() {
    assert_eq!(cell_index("slot-12"), 12);
    assert_eq!(cell_index("slot-0"), 0);
    assert_eq!(cell_index("cell7"), 7);
    assert_eq!(cell_index("abc"), 0);
    assert_eq!(cell_index("slot-"), 0);
    assert_eq!(cell_index(""), 0);
    // A suffix too large for the machine word is unparsable.
    assert_eq!(cell_index("slot-99999999999999999999999999"), 0);
}

#[test]
fn slot_ids_are_fixed() {
    assert_eq!(slot_id(0), "slot-0");
    assert_eq!(slot_id(29), "slot-29");
}

#[test]
fn launch_command_reflects_working_directory() {
    assert_eq!(
        make_launch_command(Some("/tmp/work"), "run-tool"),
        "mkdir -p /tmp/work && cd /tmp/work && run-tool\n"
    );
    assert_eq!(make_launch_command(None, "run-tool"), "run-tool\n");
    // A blank directory is ignored; a blank command falls back to the default.
    assert_eq!(make_launch_command(Some("   "), "run-tool"), "run-tool\n");
    assert_eq!(make_launch_command(None, "  "), "agent\n");
    assert_eq!(
        make_launch_command(Some("~/notes"), ""),
        "mkdir -p ~/notes && cd ~/notes && agent\n"
    );
}

#[test]
fn launch_plan_spawns_only_without_engine() {
    let m = &mut Multiplexer::new(&Vec::new(), 0);
    let plan = plan_launch(m, 6, Some("/tmp/x"), "tool");
    assert!(plan.spawn_first);
    assert_eq!(plan.command, "mkdir -p /tmp/x && cd /tmp/x && tool\n");
    m.begin_spawn(6, 1);
    m.commit_spawn(6, 44, 1);
    let plan = plan_launch(m, 6, None, "tool");
    assert!(!plan.spawn_first);
    assert_eq!(plan.command, "tool\n");
}

#[test]
fn tilde_expansion_rewrites_home_prefix() {
    assert_eq!(expand_tilde_with("~/notes/a.md", "/home/u"), "/home/u/notes/a.md");
    assert_eq!(expand_tilde_with("/abs/path", "/home/u"), "/abs/path");
    assert_eq!(expand_tilde_with("~", "/home/u"), "~");
}

#[test]
fn iso_rendering_is_exact() {
    assert_eq!(iso_from_secs(0), "1970-01-01T00:00:00.000Z");
    assert_eq!(iso_from_secs(1704067200), "2024-01-01T00:00:00.000Z");
    assert_eq!(iso_from_secs(86399), "1970-01-01T23:59:59.000Z");
    // Years beyond four digits keep all their digits.
    assert_eq!(iso_from_secs(253402300800), "10000-01-01T00:00:00.000Z");
}

#[test]
fn civil_dates_from_day_numbers() {
    assert_eq!(days_to_date(0), (1970, 1, 1));
    assert_eq!(days_to_date(19723), (2024, 1, 1));
    // 2000-02-29, a leap day: 11016 days after the epoch.
    assert_eq!(days_to_date(11016), (2000, 2, 29));
    assert_eq!(days_to_date(31), (1970, 2, 1));
}

#[test]
fn decimal_rendering() {
    assert_eq!(u64_to_string(0), "0");
    assert_eq!(u64_to_string(1234), "1234");
    assert_eq!(u64_to_string(u64::MAX), "18446744073709551615");
}

#[test]
fn string_equality_and_windows() {
    assert!(str_eq("abc", "abc"));
    assert!(!str_eq("abc", "abd"));
    assert!(!str_eq("abc", "ab"));
    assert!(str_eq("", ""));
    assert_eq!(tail_chars("hello", 3), "llo");
    assert_eq!(tail_chars("hi", 3), "hi");
    assert_eq!(tail_chars("\u{3042}\u{3044}\u{3046}", 2), "\u{3044}\u{3046}");
    assert_eq!(head_chars("hello", 3), "hel");
    assert_eq!(head_chars("\u{3042}\u{3044}\u{3046}", 2), "\u{3042}\u{3044}");
}

#[test]
fn environment_is_sanitized() {
    let vars = vec![
        ("PATH".to_string(), "/usr/bin:/bin".to_string()),
        ("HOST_AUTOMATION".to_string(), "1".to_string()),
        ("HOME".to_string(), "/home/u".to_string()),
    ];
    let deny = vec!["HOST_AUTOMATION".to_string()];
    let out = sanitize_env(&vars, &deny, "/usr/local/bin:/opt/homebrew/bin");
    assert_eq!(
        out,
        vec![
            (
                "PATH".to_string(),
                "/usr/local/bin:/opt/homebrew/bin:/usr/bin:/bin".to_string()
            ),
            ("HOME".to_string(), "/home/u".to_string()),
            ("TERM".to_string(), "xterm-256color".to_string()),
        ]
    );
}

#[test]
fn sessions_sort_lexicographically_by_id() {
    let m = Multiplexer::new(&Vec::new(), 0);
    let sorted = sort_cells_by_id(m.get_cells());
    let ids: Vec<&str> = sorted.iter().map(|c| c.id.as_str()).collect();
    assert_eq!(ids[0], "slot-0");
    assert_eq!(ids[1], "slot-1");
    assert_eq!(ids[2], "slot-10");
    assert_eq!(ids[11], "slot-19");
    assert_eq!(ids[12], "slot-2");
    assert_eq!(ids[29], "slot-9");
    // The same slots, reordered only.
    let mut back: Vec<String> = sorted.iter().map(|c| c.id.clone()).collect();
    back.sort();
    let mut expected: Vec<String> = (0..30).map(|i| format!("slot-{}", i)).collect();
    expected.sort();
    assert_eq!(back, expected);
}

fn file(name: &str, ms: u64) -> FileEntry {
    FileEntry {
        name: name.to_string(),
        path: format!("/tmp/{}", name),
        modified_ms: ms,
        size_bytes: 1,
        is_dir: false,
    }
}

#[test]
fn listings_are_ordered_newest_first_and_capped() {
    let files = vec![file("a", 3), file("b", 9), file("c", 1), file("d", 7)];
    let out = cap_newest_first(files, 3);
    let names: Vec<&str> = out.iter().map(|f| f.name.as_str()).collect();
    assert_eq!(names, vec!["b", "d", "a"]);
    let files = vec![file("a", 3)];
    let out = cap_newest_first(files, 200);
    assert_eq!(out.len(), 1);
}
