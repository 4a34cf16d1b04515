use dglab_audio_link::app::history::{
    StrengthHistory, STRENGTH_HISTORY_SAMPLE_INTERVAL, STRENGTH_HISTORY_WINDOW,
};
use dglab_audio_link::app::log_view::{log_entries_text, log_level_row_fill, LogSelection};
use dglab_audio_link::app::logs::{parse_log_entry, GuiLogBuffer, GuiLogEntry, GuiLogLevel};
use dglab_audio_link::seconds::Seconds;

#[test]
fn levels_are_read_from_texts() {
    assert_eq!(GuiLogLevel::all().len(), 5);
    for level in GuiLogLevel::all() {
        assert_eq!(GuiLogLevel::from_filter_text(&format!(" {} ", level.directive())), level);
        assert_eq!(GuiLogLevel::from_level_token(level.directive()), Some(level));
    }
    assert_eq!(GuiLogLevel::from_filter_text("app=debug"), GuiLogLevel::Info);
    assert_eq!(GuiLogLevel::from_level_token("fatal"), None);
    assert_eq!(GuiLogLevel::from_log_line("a error b"), GuiLogLevel::Error);
    assert_eq!(GuiLogLevel::from_log_line("error b"), GuiLogLevel::Info);
    assert_eq!(GuiLogLevel::from_log_line("a trace debug b"), GuiLogLevel::Debug);
}

#[test]
fn lines_become_entries() {
    let entry = parse_log_entry(
        7,
        "2024-01-01T00:00:00Z WARN app::engine: lost: it".to_owned(),
    );
    assert_eq!(entry.id, 7);
    assert_eq!(entry.level, GuiLogLevel::Warn);
    assert_eq!(entry.timestamp, "2024-01-01T00:00:00Z");
    assert_eq!(entry.target, "app::engine");
    assert_eq!(entry.message, "lost: it");
    let entry = parse_log_entry(1, "  no level debug here  ".to_owned());
    assert_eq!(entry.level, GuiLogLevel::Debug);
    assert_eq!(entry.timestamp, "");
    assert_eq!(entry.target, "");
    assert_eq!(entry.message, "no level debug here");
    assert_eq!(entry.text, "  no level debug here  ");
}

fn texts(entries: &[GuiLogEntry]) -> Vec<&str> {
    entries.iter().map(|entry| entry.text.as_str()).collect()
}

#[test]
fn texts_can_come_in_parts() {
    let mut buffer = GuiLogBuffer::new();
    buffer.push_text("one\r\ntw");
    assert_eq!(texts(&buffer.snapshot()), ["one"]);
    buffer.push_text("o\n\nthree");
    let entries = buffer.snapshot();
    assert_eq!(texts(&entries), ["one", "two", ""]);
    assert_eq!(entries.iter().map(|e| e.id).collect::<Vec<_>>(), [0, 1, 2]);
    let mut whole = GuiLogBuffer::default();
    whole.push_text("one\r\ntwo\n\nthree");
    assert_eq!(texts(&whole.snapshot()), texts(&entries));
    buffer.clear();
    assert!(buffer.snapshot().is_empty());
    buffer.push_text("four\n");
    assert_eq!(buffer.snapshot()[0].id, 3);
    assert_eq!(texts(&buffer.snapshot()), ["four"]);
}

#[test]
fn only_the_latest_lines_stay() {
    let mut buffer = GuiLogBuffer::new();
    for i in 0..4010 {
        buffer.push_text(&format!("{i}\n"));
    }
    let entries = buffer.snapshot();
    assert_eq!(entries.len(), 4000);
    assert_eq!(entries[0].text, "10");
    assert_eq!(entries[3999].id, 4009);
}

fn entries(ids: &[u64]) -> Vec<GuiLogEntry> {
    ids.iter().map(|id| parse_log_entry(*id, format!("line {id}"))).collect()
}

fn ids(selection: &LogSelection) -> Vec<u64> {
    selection.ids.iter().copied().collect()
}

#[test]
fn clicks_select_lines() {
    let lines = entries(&[5, 6, 7, 8]);
    let mut selection = LogSelection::new();
    selection.toggle_log_selection(&lines, 6, false, false);
    assert_eq!((ids(&selection), selection.anchor), (vec![6], Some(6)));
    selection.toggle_log_selection(&lines, 8, true, false);
    assert_eq!((ids(&selection), selection.anchor), (vec![6, 7, 8], Some(6)));
    selection.toggle_log_selection(&lines, 5, true, true);
    assert_eq!((ids(&selection), selection.anchor), (vec![5, 6], Some(6)));
    selection.toggle_log_selection(&lines, 8, false, true);
    assert_eq!((ids(&selection), selection.anchor), (vec![5, 6, 8], Some(8)));
    selection.toggle_log_selection(&lines, 8, false, true);
    assert_eq!((ids(&selection), selection.anchor), (vec![5, 6], Some(8)));
    selection.toggle_log_selection(&lines, 99, false, false);
    assert_eq!(ids(&selection), [5, 6]);
    assert_eq!(texts(&selection.selected_log_entries(&lines)), ["line 5", "line 6"]);
    selection.retain_visible_log_selection(&entries(&[6, 7]));
    assert_eq!((ids(&selection), selection.anchor), (vec![6], None));
    selection.toggle_log_selection(&lines, 7, true, false);
    assert_eq!((ids(&selection), selection.anchor), (vec![7], Some(7)));
    selection.select_all(&lines);
    assert_eq!((ids(&selection), selection.anchor), (vec![5, 6, 7, 8], Some(8)));
    selection.select_all(&entries(&[]));
    assert_eq!((ids(&selection), selection.anchor), (vec![], None));
    selection.clear();
    assert!(LogSelection::default().ids.is_empty());
}

#[test]
fn selected_lines_are_joined() {
    assert_eq!(log_entries_text(&entries(&[1, 2, 3])), "line 1\nline 2\nline 3");
    assert_eq!(log_entries_text(&entries(&[])), "");
}

#[test]
fn rows_are_coloured() {
    let blue = [0, 100, 255];
    assert_eq!(log_level_row_fill(GuiLogLevel::Error, false, blue), [255, 228, 228, 255]);
    assert_eq!(log_level_row_fill(GuiLogLevel::Info, false, blue), [0, 0, 0, 0]);
    assert_eq!(log_level_row_fill(GuiLogLevel::Info, true, blue), [236, 242, 250, 255]);
    assert_eq!(log_level_row_fill(GuiLogLevel::Warn, true, blue), [127, 171, 234, 255]);
}

fn seconds(x: f64) -> Seconds {
    Seconds::from_bits(x.to_bits())
}

fn note(history: &mut StrengthHistory, now: f64, strengths: [u16; 2]) {
    let elapsed =
        history.points.iter().map(|p| seconds(now - f64::from_bits(p.at.bits))).collect();
    history.push_strength_history(seconds(now), &elapsed, strengths);
}

fn points(history: &StrengthHistory) -> Vec<(f64, u16, u16)> {
    history.points.iter().map(|p| (f64::from_bits(p.at.bits), p.a, p.b)).collect()
}

#[test]
fn history_samples_and_forgets() {
    assert_eq!(f64::from_bits(STRENGTH_HISTORY_SAMPLE_INTERVAL), 0.25);
    assert_eq!(f64::from_bits(STRENGTH_HISTORY_WINDOW), 20.0);
    let mut history = StrengthHistory::new();
    note(&mut history, 0.0, [1, 2]);
    note(&mut history, 0.2, [3, 4]);
    assert_eq!(points(&history), [(0.0, 3, 4)]);
    note(&mut history, 0.25, [5, 6]);
    assert_eq!(points(&history), [(0.0, 3, 4), (0.25, 5, 6)]);
    note(&mut history, 20.125, [7, 8]);
    assert_eq!(points(&history), [(0.25, 5, 6), (20.125, 7, 8)]);
    note(&mut history, 40.125, [9, 9]);
    assert_eq!(points(&history), [(20.125, 7, 8), (40.125, 9, 9)]);
    for i in 0..400 {
        note(&mut history, 100.0 + f64::from(i) / 4.0, [9, 9]);
    }
    assert_eq!(history.points.len(), 81);
}

#[test]
fn history_goes_by_the_rounded_difference() {
    let mut history = StrengthHistory::default();
    note(&mut history, 0.1, [1, 1]);
    note(&mut history, 0.35, [2, 2]);
    assert_eq!(points(&history), [(0.1, 2, 2)]);
    note(&mut history, 0.36, [3, 3]);
    assert_eq!(points(&history), [(0.1, 2, 2), (0.36, 3, 3)]);
}

#[test]
fn history_is_bounded() {
    let mut history = StrengthHistory::new();
    for i in 0..310u16 {
        let elapsed = vec![seconds(1.0); history.points.len()];
        history.push_strength_history(seconds(f64::from(i)), &elapsed, [i, 0]);
    }
    assert_eq!(history.points.len(), 300);
    assert_eq!(history.points[0].a, 10);
    assert_eq!(history.points[299].a, 309);
}

#[test]
fn seconds_compare_like_numbers() {
    let values = [f64::NEG_INFINITY, -2.0, -0.0, 0.0, 1e-310, 0.25, 20.0, f64::INFINITY, f64::NAN];
    for a in values {
        for b in values {
            assert_eq!(seconds(a).below(seconds(b)), a < b);
            assert_eq!(seconds(a).at_most(seconds(b)), a <= b);
        }
        assert_eq!(seconds(a).not_a_number(), a.is_nan());
    }
}

#[test]
fn a_text_adds_an_entry_for_each_line_break() {
    let mut buffer = GuiLogBuffer::new();
    buffer.push_text("a\r\nb\nc");
    let entries = buffer.snapshot();
    assert_eq!(texts(&entries), ["a", "b"]);
    assert_eq!(entries.iter().map(|e| e.id).collect::<Vec<_>>(), [0, 1]);
    buffer.push_text("d\n\n\r\n");
    let entries = buffer.snapshot();
    assert_eq!(texts(&entries), ["a", "b", "cd", "", ""]);
    assert_eq!(entries.iter().map(|e| e.id).collect::<Vec<_>>(), [0, 1, 2, 3, 4]);
}

#[test]
fn clearing_keeps_the_numbering() {
    let mut buffer = GuiLogBuffer::new();
    buffer.push_text("one\ntwo\nbegun");
    buffer.clear();
    buffer.push_text("three\n");
    buffer.clear();
    assert!(buffer.snapshot().is_empty());
    buffer.push_text("x\n");
    let entries = buffer.snapshot();
    assert_eq!(texts(&entries), ["x"]);
    assert_eq!(entries[0].id, 3);
}

#[test]
fn tokens_and_filters_name_levels_in_any_case() {
    for level in GuiLogLevel::all() {
        for name in [level.directive().to_uppercase(), format!("\t{} ", level.directive())] {
            assert_eq!(GuiLogLevel::from_level_token(&name), Some(level));
            assert_eq!(GuiLogLevel::from_filter_text(&name), level);
        }
    }
    for text in ["", "errors", "app=debug,warn", "warn ing"] {
        assert_eq!(GuiLogLevel::from_level_token(text), None);
        assert_eq!(GuiLogLevel::from_filter_text(text), GuiLogLevel::Info);
    }
}
