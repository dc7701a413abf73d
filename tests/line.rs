use te::line::Line;
use te::message::Message;
use te::config::{CmdConfig, Config, FileConfig};

fn count(l: &Line) -> usize {
    l.data.chars().count()
}

#[test]
fn new_keeps_text_before_first_line_feed() {
    let l = Line::new("ab\ncd");
    assert_eq!(l.data, "ab");
    assert_eq!(l.char_len, 2);
    let e = Line::new("");
    assert_eq!(e.data, "");
    assert_eq!(e.char_len, 0);
}

#[test]
fn insert_multibyte_keeps_count() {
    let mut l = Line::from_text("ab");
    l.insert(1, '€');
    assert_eq!(l.data, "a€b");
    assert_eq!(l.char_len, 3);
    assert_eq!(l.len(), 5);
}

#[test]
fn remove_at_boundary() {
    let mut l = Line::from_text("a€b");
    l.remove(1);
    assert_eq!(l.data, "ab");
    assert_eq!(l.char_len, 2);
}

#[test]
fn split_at_boundary() {
    let mut l = Line::from_text("hé llo");
    let rest = l.split_at(3);
    assert_eq!(l.data, "hé");
    assert_eq!(l.char_len, 2);
    assert_eq!(rest.data, " llo");
    assert_eq!(rest.char_len, 4);
}

#[test]
fn back_tab_removes_up_to_max_spaces() {
    let mut l = Line::from_text("      x");
    assert_eq!(l.back_tab(4), 4);
    assert_eq!(l.data, "  x");
    assert_eq!(l.char_len, 3);
    assert_eq!(l.back_tab(4), 2);
    assert_eq!(l.data, "x");
    assert_eq!(l.back_tab(4), 0);
    assert_eq!(l.data, "x");
}

#[test]
fn push_str_and_insert_str() {
    let mut l = Line::from_text("ab");
    l.push_str("ü!");
    assert_eq!(l.data, "abü!");
    assert_eq!(l.char_len, 4);
    l.insert_str(1, "日本");
    assert_eq!(l.data, "a日本bü!");
    assert_eq!(l.char_len, 6);
}

#[test]
fn char_len_matches_count_after_edits() {
    let mut l = Line::from_text("");
    l.insert(0, 'a');
    l.insert(1, 'é');
    l.insert(3, '日');
    l.insert_str(0, "  ");
    l.push_str("z😀");
    assert_eq!(l.char_len, count(&l));
    l.remove(2);
    l.back_tab(4);
    assert_eq!(l.char_len, count(&l));
    let rest = l.split_at(2);
    assert_eq!(l.char_len, count(&l));
    assert_eq!(rest.char_len, count(&rest));
}

#[test]
fn get_char_pos_maps_and_clamps() {
    let l = Line::from_text("a€b");
    assert_eq!(l.get_char_pos(0), 0);
    assert_eq!(l.get_char_pos(1), 1);
    assert_eq!(l.get_char_pos(2), 4);
    assert_eq!(l.get_char_pos(3), 5);
    assert_eq!(l.get_char_pos(10), 5);
    let e = Line::from_text("");
    assert_eq!(e.get_char_pos(3), 0);
}

#[test]
fn get_char_span_values() {
    let l = Line::from_text("a€bcd");
    assert_eq!(l.get_char_span(1, 3), (1, 4));
    assert_eq!(l.get_char_span(0, 0), (0, 0));
    assert_eq!(l.get_char_span(2, 2), (4, 1));
    assert_eq!(l.get_char_span(0, 20), (0, 7));
}

#[test]
fn next_and_prev_boundaries() {
    let l = Line::from_text("a€b");
    assert_eq!(l.get_next_and_prev_chars(0), (0, 1));
    assert_eq!(l.get_next_and_prev_chars(1), (0, 4));
    assert_eq!(l.get_next_and_prev_chars(4), (1, 5));
    assert_eq!(l.get_next_and_prev_chars(5), (4, 5));
    assert_eq!(l.get_next_and_prev_chars(2), (1, 4));
}

#[test]
fn message_shows_until_timeout() {
    let m = Message::with_timeout("hi".to_string(), 5000);
    assert_eq!(m.show_after(0), Some("hi"));
    assert_eq!(m.show_after(4999), Some("hi"));
    assert_eq!(m.show_after(5000), None);
    assert_eq!(m.show(), Some("hi"));
    let d = Message::new("x".to_string());
    assert_eq!(d.timeout_ms, 5000);
    let gone = Message::with_timeout("y".to_string(), 0);
    assert_eq!(gone.show(), None);
}

#[test]
fn config_merge_takes_each_part() {
    let cmd = CmdConfig {
        file: Some("f.txt".to_string()),
        config: "c.toml".to_string(),
        generate_config: false,
    };
    let c = Config::merge(cmd, FileConfig { tab_size: 8 });
    assert_eq!(c.file, Some("f.txt".to_string()));
    assert_eq!(c.config_path, "c.toml");
    assert_eq!(c.tab_size, 8);
    assert_eq!(FileConfig::default().tab_size, 4);
}
