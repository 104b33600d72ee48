use std::collections::VecDeque;
use openclip::clipping::Clipping;
use openclip::config::Config;
use openclip::history::record_clipboard_text;
use openclip::menu::{clear_id, handle_menu_event, label_for, plan_menu, preferences_id, quit_id, MenuAction};

fn history_of(texts: &[&str]) -> VecDeque<Clipping> {
    let mut h = VecDeque::new();
    for t in texts.iter().rev() {
        h.push_front(Clipping::new(t));
    }
    h
}

fn config(display: usize) -> Config {
    Config {
        remember_clippings: 100,
        display_clippings: display,
        start_at_startup: true,
        record_history: true,
        clear_history_flag: false,
    }
}

#[test]
fn labels_replace_line_breaks() {
    assert_eq!(label_for("a\nb\n"), "a b ");
    assert_eq!(label_for("plain"), "plain");
    assert_eq!(label_for("tab\tstays"), "tab\tstays");
}

#[test]
fn empty_history_menu() {
    let plan = plan_menu(&VecDeque::new(), &config(10));
    assert!(plan.entries.is_empty());
    assert!(plan.show_empty_note);
    assert!(!plan.clear_enabled);
}

#[test]
fn first_nine_entries_have_shortcuts() {
    let texts: Vec<String> = (0..12).map(|i| format!("item {}", i)).collect();
    let refs: Vec<&str> = texts.iter().map(|s| s.as_str()).collect();
    let h = history_of(&refs);
    let plan = plan_menu(&h, &config(11));
    assert_eq!(plan.entries.len(), 11);
    assert!(!plan.show_empty_note);
    assert!(plan.clear_enabled);
    for (i, e) in plan.entries.iter().enumerate() {
        assert_eq!(e.label, format!("item {}", i));
        if i < 9 {
            assert_eq!(e.shortcut, Some(format!("cmd+Digit{}", i + 1)));
        } else {
            assert_eq!(e.shortcut, None);
        }
    }
}

#[test]
fn display_limit_caps_entries() {
    let h = history_of(&["a", "b", "c"]);
    assert_eq!(plan_menu(&h, &config(2)).entries.len(), 2);
    assert_eq!(plan_menu(&h, &config(0)).entries.len(), 0);
    assert_eq!(plan_menu(&h, &config(9)).entries.len(), 3);
}

#[test]
fn menu_uses_preview_with_spaces() {
    let mut h = VecDeque::new();
    let c = config(5);
    record_clipboard_text(&mut h, &c, "line one\nline two");
    let plan = plan_menu(&h, &c);
    assert_eq!(plan.entries[0].label, "line one line two");
}

#[test]
fn fixed_items() {
    let mut h = history_of(&["a"]);
    let ids: Vec<String> = vec!["7".to_string()];
    assert!(matches!(handle_menu_event(&mut h, preferences_id(), &ids), MenuAction::OpenPreferences));
    assert!(matches!(handle_menu_event(&mut h, quit_id(), &ids), MenuAction::Quit));
    assert_eq!(h.len(), 1);
    assert!(matches!(handle_menu_event(&mut h, clear_id(), &ids), MenuAction::HistoryCleared));
    assert!(h.is_empty());
    assert_eq!(preferences_id(), "prefs");
    assert_eq!(clear_id(), "clear");
    assert_eq!(quit_id(), "quit");
}

#[test]
fn clicking_an_entry_pastes_its_text() {
    let mut h = history_of(&["newest", "older\ntext"]);
    let ids: Vec<String> = vec!["10".to_string(), "11".to_string()];
    match handle_menu_event(&mut h, "11", &ids) {
        MenuAction::Paste(t) => assert_eq!(t, "older\ntext"),
        _ => panic!("expected a paste"),
    }
    match handle_menu_event(&mut h, "10", &ids) {
        MenuAction::Paste(t) => assert_eq!(t, "newest"),
        _ => panic!("expected a paste"),
    }
    assert!(matches!(handle_menu_event(&mut h, "12", &ids), MenuAction::Nothing));
    assert!(matches!(handle_menu_event(&mut h, "empty", &ids), MenuAction::Nothing));
    assert_eq!(h.len(), 2);
}

#[test]
fn entry_beyond_history_does_nothing() {
    let mut h = history_of(&["only"]);
    let ids: Vec<String> = vec!["1".to_string(), "2".to_string()];
    assert!(matches!(handle_menu_event(&mut h, "2", &ids), MenuAction::Nothing));
}

#[test]
fn corrupt_entry_does_nothing() {
    let mut h = VecDeque::new();
    h.push_back(Clipping { preview: "bad".to_string(), compressed_data: vec![9] });
    let ids: Vec<String> = vec!["1".to_string()];
    assert!(matches!(handle_menu_event(&mut h, "1", &ids), MenuAction::Nothing));
}
