use std::collections::VecDeque;
use openclip::clipping::Clipping;
use openclip::config::Config;
use openclip::history::{record_clipboard_text, reload_config};

fn texts(h: &VecDeque<Clipping>) -> Vec<String> {
    h.iter().map(|c| c.decompress().unwrap()).collect()
}

fn config(remember: usize) -> Config {
    Config {
        remember_clippings: remember,
        display_clippings: 10,
        start_at_startup: false,
        record_history: true,
        clear_history_flag: false,
    }
}

#[test]
fn default_config() {
    let c = Config::default();
    assert_eq!(c.remember_clippings, 80);
    assert_eq!(c.display_clippings, 80);
    assert!(c.start_at_startup);
    assert!(c.record_history);
    assert!(!c.clear_history_flag);
}

#[test]
fn new_text_goes_in_front_trimmed() {
    let mut h = VecDeque::new();
    assert!(record_clipboard_text(&mut h, &config(5), "first"));
    assert!(record_clipboard_text(&mut h, &config(5), "  second\n"));
    assert_eq!(texts(&h), vec!["second", "first"]);
    assert_eq!(h[0].preview, "second");
}

#[test]
fn recording_off_keeps_history() {
    let mut h = VecDeque::new();
    let mut c = config(5);
    c.record_history = false;
    assert!(!record_clipboard_text(&mut h, &c, "text"));
    assert!(h.is_empty());
}

#[test]
fn whitespace_only_text_is_ignored() {
    let mut h = VecDeque::new();
    assert!(!record_clipboard_text(&mut h, &config(5), " \n\t "));
    assert!(h.is_empty());
}

#[test]
fn same_text_twice_is_recorded_once() {
    let mut h = VecDeque::new();
    assert!(record_clipboard_text(&mut h, &config(5), "again"));
    assert!(!record_clipboard_text(&mut h, &config(5), "again"));
    assert!(!record_clipboard_text(&mut h, &config(5), " again "));
    assert_eq!(texts(&h), vec!["again"]);
}

#[test]
fn older_copy_moves_to_front() {
    let mut h = VecDeque::new();
    for t in ["a", "b", "c"] {
        record_clipboard_text(&mut h, &config(5), t);
    }
    assert_eq!(texts(&h), vec!["c", "b", "a"]);
    assert!(record_clipboard_text(&mut h, &config(5), "a"));
    assert_eq!(texts(&h), vec!["a", "c", "b"]);
}

#[test]
fn history_is_cut_to_remember_limit() {
    let mut h = VecDeque::new();
    for t in ["1", "2", "3", "4"] {
        record_clipboard_text(&mut h, &config(3), t);
    }
    assert_eq!(texts(&h), vec!["4", "3", "2"]);
}

#[test]
fn remember_zero_keeps_nothing() {
    let mut h = VecDeque::new();
    assert!(record_clipboard_text(&mut h, &config(0), "x"));
    assert!(h.is_empty());
    assert!(record_clipboard_text(&mut h, &config(0), "x"));
    assert!(h.is_empty());
}

#[test]
fn reload_with_clear_flag_empties_history() {
    let mut h = VecDeque::new();
    record_clipboard_text(&mut h, &config(5), "a");
    let mut c = config(5);
    c.clear_history_flag = true;
    let out = reload_config(&mut h, c);
    assert!(out.cleared);
    assert!(!out.truncated);
    assert!(!out.config.clear_history_flag);
    assert_eq!(out.config.remember_clippings, 5);
    assert!(h.is_empty());
}

#[test]
fn reload_with_lower_limit_truncates() {
    let mut h = VecDeque::new();
    for t in ["1", "2", "3", "4"] {
        record_clipboard_text(&mut h, &config(10), t);
    }
    let out = reload_config(&mut h, config(2));
    assert!(!out.cleared);
    assert!(out.truncated);
    assert_eq!(texts(&h), vec!["4", "3"]);
    let out = reload_config(&mut h, config(2));
    assert!(!out.truncated);
    assert_eq!(h.len(), 2);
}
