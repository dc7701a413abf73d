use te::buffer::{FileData, FileStatus, PromptStatus, PromptType, Prompt, TextPos};
use te::config::Config;
use te::editor::{normal_input, scroll, KeyCode, KeyEvent};
use te::prompt::prompt_input;
use te::render::{frame, prompt_view, status_bar, Refresh};
use te::search::search;

fn cfg(tab: usize) -> Config {
    Config {
        file: None,
        config_path: String::new(),
        tab_size: tab,
    }
}

fn key(code: KeyCode) -> KeyEvent {
    KeyEvent { code, ctrl: false }
}

fn buffer(text: &str) -> FileData {
    FileData::from_text("t.txt".to_string(), text, &cfg(4), TextPos(10, 40))
}

fn texts(w: &FileData) -> Vec<String> {
    w.lines.iter().map(|l| l.data.clone()).collect()
}

fn press(w: &mut FileData, code: KeyCode) {
    normal_input(key(code), w, &cfg(4));
}

#[test]
fn load_expands_tabs_and_splits_lines() {
    let w = FileData::from_text("t".to_string(), "a\tb\nc\r\nd\n", &cfg(2), TextPos(10, 40));
    assert_eq!(texts(&w), vec!["a  b", "c", "d"]);
    let e = buffer("");
    assert_eq!(texts(&e), vec![""]);
    let bare_cr = buffer("x\r");
    assert_eq!(texts(&bare_cr), vec!["x\r"]);
}

#[test]
fn load_save_load_round_trip() {
    let w = FileData::from_text("t".to_string(), "a\tb\nc\r\n\nd", &cfg(2), TextPos(10, 40));
    let saved = w.save_contents();
    assert_eq!(saved, "a  b\r\nc\r\n\r\nd\r\n");
    let again = FileData::from_text("t".to_string(), &saved, &cfg(2), TextPos(10, 40));
    assert_eq!(texts(&again), texts(&w));
    assert_eq!(again.save_contents(), saved);
}

#[test]
fn invalid_utf8_loads_empty() {
    let w = FileData::from_bytes("t".to_string(), vec![0x61, 0xff, 0x62], &cfg(4), TextPos(10, 40));
    assert_eq!(texts(&w), vec![""]);
    let v = FileData::from_bytes("t".to_string(), "é\nb".as_bytes().to_vec(), &cfg(4), TextPos(10, 40));
    assert_eq!(texts(&v), vec!["é", "b"]);
}

#[test]
fn rows_agree_after_every_key() {
    let mut w = buffer("héllo\nwörld\n\nend");
    let keys = [
        KeyCode::Down,
        KeyCode::End,
        KeyCode::Char('x'),
        KeyCode::Enter,
        KeyCode::Backspace,
        KeyCode::Backspace,
        KeyCode::Up,
        KeyCode::Right,
        KeyCode::PageDown,
        KeyCode::Delete,
        KeyCode::Tab,
        KeyCode::BackTab,
        KeyCode::PageUp,
        KeyCode::Left,
        KeyCode::Home,
    ];
    for k in keys.iter() {
        press(&mut w, *k);
        assert_eq!(w.location.0, w.cursor_location.0);
        let l = &w.lines[w.location.0];
        assert_eq!(l.get_char_pos(w.cursor_location.1), w.location.1);
    }
}

#[test]
fn enter_then_backspace_restores_line() {
    let mut w = buffer("héllo wörld");
    w.location = TextPos(0, 3);
    w.cursor_location = TextPos(0, 2);
    press(&mut w, KeyCode::Enter);
    assert_eq!(texts(&w), vec!["hé", "llo wörld"]);
    assert_eq!(w.location, TextPos(1, 0));
    assert_eq!(w.f_status, FileStatus::Edited);
    press(&mut w, KeyCode::Backspace);
    assert_eq!(texts(&w), vec!["héllo wörld"]);
    assert_eq!(w.location, TextPos(0, 3));
    assert_eq!(w.cursor_location, TextPos(0, 2));
}

#[test]
fn backspace_at_start_does_nothing() {
    let mut w = buffer("abc\ndef");
    press(&mut w, KeyCode::Backspace);
    assert_eq!(texts(&w), vec!["abc", "def"]);
    assert_eq!(w.location, TextPos(0, 0));
    assert_eq!(w.f_status, FileStatus::Clean);
}

#[test]
fn multibyte_type_left_right() {
    let mut w = buffer("ab");
    press(&mut w, KeyCode::Right);
    press(&mut w, KeyCode::Char('€'));
    assert_eq!(texts(&w), vec!["a€b"]);
    assert_eq!(w.location, TextPos(0, 4));
    assert_eq!(w.cursor_location, TextPos(0, 2));
    press(&mut w, KeyCode::Left);
    assert_eq!(w.location, TextPos(0, 1));
    assert_eq!(w.cursor_location, TextPos(0, 1));
    press(&mut w, KeyCode::Right);
    assert_eq!(w.location, TextPos(0, 4));
    assert_eq!(w.cursor_location, TextPos(0, 2));
}

#[test]
fn vertical_motion_keeps_char_column() {
    let mut w = buffer("日本語です\nab\nxyzw");
    press(&mut w, KeyCode::End);
    assert_eq!(w.location, TextPos(0, 15));
    assert_eq!(w.cursor_location, TextPos(0, 5));
    press(&mut w, KeyCode::Down);
    assert_eq!(w.location, TextPos(1, 2));
    assert_eq!(w.cursor_location, TextPos(1, 2));
    press(&mut w, KeyCode::Up);
    assert_eq!(w.location, TextPos(0, 6));
    press(&mut w, KeyCode::PageDown);
    assert_eq!(w.location, TextPos(2, 2));
    press(&mut w, KeyCode::PageUp);
    assert_eq!(w.location, TextPos(0, 6));
}

#[test]
fn left_right_across_lines() {
    let mut w = buffer("ab\ncd");
    w.location = TextPos(1, 0);
    w.cursor_location = TextPos(1, 0);
    press(&mut w, KeyCode::Left);
    assert_eq!(w.location, TextPos(0, 2));
    assert_eq!(w.cursor_location, TextPos(0, 2));
    press(&mut w, KeyCode::Right);
    assert_eq!(w.location, TextPos(1, 0));
}

#[test]
fn tab_and_back_tab() {
    let mut w = buffer("x");
    press(&mut w, KeyCode::Tab);
    assert_eq!(texts(&w), vec!["    x"]);
    assert_eq!(w.location, TextPos(0, 4));
    press(&mut w, KeyCode::End);
    press(&mut w, KeyCode::BackTab);
    assert_eq!(texts(&w), vec!["x"]);
    assert_eq!(w.location, TextPos(0, 1));
    assert_eq!(w.cursor_location, TextPos(0, 1));
    let mut c = buffer("y");
    press(&mut c, KeyCode::BackTab);
    assert_eq!(c.f_status, FileStatus::Clean);
}

#[test]
fn delete_merges_and_removes() {
    let mut w = buffer("a€\nb");
    press(&mut w, KeyCode::End);
    press(&mut w, KeyCode::Delete);
    assert_eq!(texts(&w), vec!["a€b"]);
    press(&mut w, KeyCode::Home);
    press(&mut w, KeyCode::Right);
    press(&mut w, KeyCode::Delete);
    assert_eq!(texts(&w), vec!["ab"]);
    assert_eq!(w.location, TextPos(0, 1));
    press(&mut w, KeyCode::End);
    press(&mut w, KeyCode::Delete);
    assert_eq!(texts(&w), vec!["ab"]);
}

#[test]
fn scroll_follows_cursor_and_is_idempotent() {
    let text: Vec<String> = (0..30).map(|i| format!("line {}", i)).collect();
    let mut w = FileData::from_text("t".to_string(), &text.join("\n"), &cfg(4), TextPos(7, 10));
    for _ in 0..12 {
        press(&mut w, KeyCode::Down);
    }
    assert_eq!(w.top_visible, 8);
    for _ in 0..7 {
        press(&mut w, KeyCode::Right);
    }
    assert_eq!(w.left_visible, 3);
    scroll(&mut w);
    scroll(&mut w);
    assert_eq!(w.top_visible, 8);
    assert_eq!(w.left_visible, 3);
    for _ in 0..10 {
        press(&mut w, KeyCode::Up);
    }
    assert_eq!(w.top_visible, 2);
}

#[test]
fn search_wraps_to_top() {
    let w = buffer("foo\nbar\nfoo");
    assert_eq!(search(&w.lines, 2, 3, "foo"), Some((0, 0)));
    assert_eq!(search(&w.lines, 0, 1, "foo"), Some((2, 0)));
    assert_eq!(search(&w.lines, 0, 0, "ar"), Some((1, 1)));
    assert_eq!(search(&w.lines, 1, 0, "zz"), None);
    assert_eq!(search(&w.lines, 1, 2, ""), Some((1, 2)));
}

#[test]
fn prompt_edits_its_input() {
    let mut p = Prompt::new("Search: ", PromptType::Search);
    assert_eq!(p.message.data, "Search: ");
    for c in ['h', 'é', 'j'] {
        prompt_input(&mut p, key(KeyCode::Char(c)), 80);
    }
    assert_eq!(p.data.data, "héj");
    assert_eq!((p.location, p.cursor), (4, 3));
    prompt_input(&mut p, key(KeyCode::Left), 80);
    prompt_input(&mut p, key(KeyCode::Backspace), 80);
    assert_eq!(p.data.data, "hj");
    assert_eq!((p.location, p.cursor), (1, 1));
    prompt_input(&mut p, key(KeyCode::Delete), 80);
    assert_eq!(p.data.data, "h");
    prompt_input(&mut p, key(KeyCode::Right), 80);
    assert_eq!(p.status, PromptStatus::Pending);
    prompt_input(&mut p, key(KeyCode::Enter), 80);
    assert_eq!(p.status, PromptStatus::Success);
    let mut q = Prompt::new("Path: ", PromptType::Save);
    prompt_input(&mut q, key(KeyCode::Esc), 80);
    assert_eq!(q.status, PromptStatus::Cancelled);
}

#[test]
fn prompt_scrolls_input() {
    let mut p = Prompt::new("Path: ", PromptType::Save);
    for c in "abcdefgh".chars() {
        prompt_input(&mut p, key(KeyCode::Char(c)), 10);
    }
    assert_eq!(p.left_visible, 5);
    let v = prompt_view(&p, 10, 10);
    assert_eq!(v.label, "Path: ");
    assert_eq!(v.input, "fgh");
    assert_eq!(v.cursor_col, 10);
    assert_eq!(v.row, 9);
}

#[test]
fn frame_numbers_rows_and_fills() {
    let mut w = FileData::from_text("t".to_string(), "ab\ncdé", &cfg(4), TextPos(6, 30));
    w.f_status = FileStatus::Edited;
    let f = frame(&w, &Some("t.txt".to_string()), "12:34:56");
    assert_eq!(f.rows, vec!["000| ab", "001| cdé", "~"]);
    assert_eq!(f.status, "file: t.txt*   time: 12:34:56");
    assert_eq!(f.message, Some("Press Ctrl+Q to quit".to_string()));
    assert_eq!((f.cursor_col, f.cursor_row), (5, 1));
    assert_eq!(status_bar(&None, false, "00:00:00", 10), "No file se");
    assert_eq!(w.refresh_step(), Refresh::Paint);
    w.painted();
    assert_eq!(w.refresh_step(), Refresh::Skip);
    w.ended = true;
    assert_eq!(w.refresh_step(), Refresh::Stop);
}
