use te::buffer::{FileData, FileStatus, PromptType, TextPos};
use te::config::Config;
use te::editor::{KeyCode, KeyEvent};
use te::session::{confirm_quit, handle_event, Event, Outcome};

fn cfg(file: Option<&str>) -> Config {
    Config {
        file: file.map(|f| f.to_string()),
        config_path: String::new(),
        tab_size: 4,
    }
}

fn key(code: KeyCode) -> Event {
    Event::Key(KeyEvent { code, ctrl: false })
}

fn ctrl(c: char) -> Event {
    Event::Key(KeyEvent {
        code: KeyCode::Char(c),
        ctrl: true,
    })
}

#[test]
fn quit_on_clean_buffer() {
    let mut w = FileData::new(TextPos(10, 40));
    let mut c = cfg(None);
    assert_eq!(handle_event(&mut w, &mut c, ctrl('q')), Outcome::Quit);
    assert!(w.ended);
}

#[test]
fn quit_on_edited_buffer_needs_confirmation() {
    let mut w = FileData::new(TextPos(10, 40));
    let mut c = cfg(None);
    handle_event(&mut w, &mut c, key(KeyCode::Char('a')));
    assert_eq!(w.f_status, FileStatus::Edited);
    assert_eq!(handle_event(&mut w, &mut c, ctrl('q')), Outcome::ConfirmQuit);
    assert!(!w.ended);
    assert_eq!(w.message.text, "Press Ctrl + Q again to quit");
    assert_eq!(w.message.timeout_ms, 5000);
    let before = (w.location, w.cursor_location);
    assert!(!confirm_quit(&mut w, key(KeyCode::Char('q'))));
    assert!(!w.ended);
    assert_eq!((w.location, w.cursor_location), before);
    assert!(w.prompt.is_none());
    assert_eq!(w.lines[0].data, "a");
    assert_eq!(handle_event(&mut w, &mut c, ctrl('q')), Outcome::ConfirmQuit);
    assert!(confirm_quit(&mut w, ctrl('q')));
    assert!(w.ended);
}

#[test]
fn save_with_known_path() {
    let mut w = FileData::new(TextPos(10, 40));
    let mut c = cfg(Some("out.txt"));
    handle_event(&mut w, &mut c, key(KeyCode::Char('z')));
    assert_eq!(handle_event(&mut w, &mut c, ctrl('s')), Outcome::Save);
    assert_eq!(w.path, "out.txt");
    assert_eq!(w.save_contents(), "z\r\n");
    w.finish_save(true);
    assert_eq!(w.f_status, FileStatus::Clean);
    assert_eq!(w.message.text, "Saved: out.txt");
}

#[test]
fn failed_save_keeps_edited() {
    let mut w = FileData::new(TextPos(10, 40));
    let mut c = cfg(Some("out.txt"));
    handle_event(&mut w, &mut c, key(KeyCode::Char('z')));
    handle_event(&mut w, &mut c, ctrl('s'));
    w.finish_save(false);
    assert_eq!(w.f_status, FileStatus::Edited);
    assert_eq!(w.message.text, "Could not save: out.txt");
}

#[test]
fn save_prompt_sets_path() {
    let mut w = FileData::new(TextPos(10, 40));
    let mut c = cfg(None);
    assert_eq!(handle_event(&mut w, &mut c, ctrl('s')), Outcome::Continue);
    assert_eq!(w.prompt.as_ref().map(|p| p.p_type), Some(PromptType::Save));
    for ch in "n.txt".chars() {
        assert_eq!(handle_event(&mut w, &mut c, key(KeyCode::Char(ch))), Outcome::Continue);
    }
    assert_eq!(w.lines[0].data, "");
    assert_eq!(handle_event(&mut w, &mut c, key(KeyCode::Enter)), Outcome::Save);
    assert!(w.prompt.is_none());
    assert_eq!(w.path, "n.txt");
    assert_eq!(c.file, Some("n.txt".to_string()));
    w.finish_save(true);
    assert!(w.prompt.is_none());
    assert_eq!(w.f_status, FileStatus::Clean);
    assert_eq!(w.message.text, "Saved: n.txt");
}

#[test]
fn search_prompt_moves_cursor_and_reports() {
    let mut w = FileData::from_text("t".to_string(), "foo\nbär\nfoo", &cfg(None), TextPos(10, 40));
    let mut c = cfg(None);
    w.location = TextPos(2, 3);
    w.cursor_location = TextPos(2, 3);
    handle_event(&mut w, &mut c, ctrl('f'));
    for ch in "foo".chars() {
        handle_event(&mut w, &mut c, key(KeyCode::Char(ch)));
    }
    handle_event(&mut w, &mut c, key(KeyCode::Enter));
    assert!(w.prompt.is_none());
    assert_eq!(w.location, TextPos(0, 0));
    assert_eq!(w.cursor_location, TextPos(0, 0));
    assert_eq!(w.message.text, "Found: \"foo\" at Ln:0, Col:0");
    handle_event(&mut w, &mut c, ctrl('f'));
    for ch in "är".chars() {
        handle_event(&mut w, &mut c, key(KeyCode::Char(ch)));
    }
    handle_event(&mut w, &mut c, key(KeyCode::Enter));
    assert_eq!(w.location, TextPos(1, 1));
    assert_eq!(w.cursor_location, TextPos(1, 1));
    assert_eq!(w.message.text, "Found: \"är\" at Ln:1, Col:1");
    handle_event(&mut w, &mut c, ctrl('f'));
    handle_event(&mut w, &mut c, key(KeyCode::Char('q')));
    handle_event(&mut w, &mut c, key(KeyCode::Enter));
    assert_eq!(w.location, TextPos(1, 1));
    assert_eq!(w.message.text, "Phrase: \"q\" not found");
}

#[test]
fn cancelled_prompt_changes_nothing() {
    let mut w = FileData::from_text("t".to_string(), "abc", &cfg(None), TextPos(10, 40));
    let mut c = cfg(None);
    handle_event(&mut w, &mut c, ctrl('f'));
    handle_event(&mut w, &mut c, key(KeyCode::Char('b')));
    handle_event(&mut w, &mut c, key(KeyCode::Esc));
    assert!(w.prompt.is_none());
    assert_eq!(w.path, "t");
    assert_eq!(c.file, None);
    assert_eq!(w.location, TextPos(0, 0));
    assert_eq!(w.lines[0].data, "abc");
}

#[test]
fn resize_updates_size() {
    let mut w = FileData::from_text("t".to_string(), "ab\ncd", &cfg(None), TextPos(10, 40));
    let mut c = cfg(None);
    handle_event(&mut w, &mut c, key(KeyCode::Down));
    handle_event(&mut w, &mut c, key(KeyCode::Right));
    w.redraw = false;
    assert_eq!(handle_event(&mut w, &mut c, Event::Resize(100, 30)), Outcome::Continue);
    assert_eq!(w.size, TextPos(30, 100));
    assert!(w.redraw);
    assert_eq!(w.location, TextPos(1, 1));
    assert_eq!(w.cursor_location, TextPos(1, 1));
    assert_eq!(w.path, "t");
}
