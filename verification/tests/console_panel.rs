use gcodekit5_ui::console_panel::{ConsoleMessage, ConsolePanel, HistoryEntry, MessageFilter, MessageLevel};

fn message(level: MessageLevel, text: &str, timestamp: u64) -> ConsoleMessage {
    let mut m = ConsoleMessage::new(level, text);
    m.timestamp = timestamp;
    m
}

#[test]
fn level_tags_and_formats() {
    assert_eq!(MessageLevel::Debug.to_string(), "DEBUG");
    assert_eq!(MessageLevel::Info.to_string(), "INFO");
    assert_eq!(MessageLevel::Warning.to_string(), "WARN");
    assert_eq!(MessageLevel::Error.to_string(), "ERR");
    assert_eq!(MessageLevel::Success.to_string(), "OK");
    let m = message(MessageLevel::Error, "alarm", 3600 * 25 + 61);
    assert_eq!(m.formatted(), "[ERR] alarm");
    assert_eq!(m.formatted_with_time(), "[01:01:01] [ERR] alarm");
    let c = ConsoleMessage::command("G0 X1");
    assert!(c.is_command);
    assert_eq!(c.level, MessageLevel::Info);
    assert_eq!(c.formatted(), "[INFO] G0 X1");
}

#[test]
fn message_timestamps_come_from_the_clock() {
    // the clock is read when a message is made: a time after 2020-01-01
    assert!(ConsoleMessage::new(MessageLevel::Info, "x").timestamp > 1_577_836_800);
    assert!(HistoryEntry::new("x").timestamp > 1_577_836_800);
}

#[test]
fn filters() {
    let all = MessageFilter::show_all();
    let errors = MessageFilter::errors_only();
    let debug = message(MessageLevel::Debug, "d", 0);
    let warn = message(MessageLevel::Warning, "w", 0);
    let err = message(MessageLevel::Error, "e", 0);
    let cmd = ConsoleMessage::command("G0");
    for m in [&debug, &warn, &err, &cmd] {
        assert!(all.matches(m));
    }
    assert!(!errors.matches(&debug));
    assert!(!errors.matches(&warn));
    assert!(errors.matches(&err));
    assert!(!errors.matches(&cmd));
    let mut text = MessageFilter::default();
    text.text_filter = Some("ALA".to_string());
    assert!(text.matches(&message(MessageLevel::Info, "Alarm 1", 0)));
    assert!(!text.matches(&message(MessageLevel::Info, "ok", 0)));
}

#[test]
fn buffer_keeps_the_newest_messages() {
    let mut panel = ConsolePanel::new();
    panel.max_messages = 3;
    for i in 0..5 {
        panel.add_message(MessageLevel::Info, &format!("m{}", i));
    }
    assert_eq!(panel.message_count(), 3);
    let texts: Vec<String> = panel.get_filtered_messages().iter().map(|m| m.text.clone()).collect();
    assert_eq!(texts, vec!["m2", "m3", "m4"]);
    panel.add_command("G0");
    assert_eq!(panel.message_count(), 3);
    assert!(panel.messages.back().unwrap().is_command);
    panel.clear();
    assert_eq!(panel.message_count(), 0);
    assert_eq!(panel.scroll_position, 0);
}

#[test]
fn history_is_bounded() {
    let mut panel = ConsolePanel::default();
    panel.max_history = 2;
    panel.add_to_history("a");
    panel.add_to_history("b");
    panel.add_to_history("c");
    assert_eq!(panel.get_history(), vec!["b".to_string(), "c".to_string()]);
    assert_eq!(panel.history_count(), 2);
    panel.clear_history();
    assert_eq!(panel.history_count(), 0);
}

#[test]
fn toggles_and_counts() {
    let mut panel = ConsolePanel::new();
    panel.add_message(MessageLevel::Debug, "d");
    panel.add_message(MessageLevel::Error, "e");
    panel.add_command("G0");
    assert_eq!(panel.filtered_count(), 3);
    panel.toggle_debug();
    assert_eq!(panel.filtered_count(), 2);
    panel.toggle_commands();
    assert_eq!(panel.filtered_count(), 1);
    panel.toggle_error();
    assert_eq!(panel.filtered_count(), 0);
    panel.toggle_debug();
    panel.toggle_error();
    panel.toggle_commands();
    assert_eq!(panel.filtered_count(), 3);
    panel.toggle_info();
    panel.toggle_warning();
    assert!(!panel.filter.info && !panel.filter.warning);
    panel.set_text_filter(Some("E".to_string()));
    assert_eq!(panel.filtered_count(), 1);
    panel.scroll_up();
    panel.set_filter(MessageFilter::errors_only());
    assert_eq!(panel.scroll_position, 0);
    assert_eq!(panel.filtered_count(), 1);
}

#[test]
fn display_window_follows_scroll() {
    let mut panel = ConsolePanel::new();
    panel.show_timestamps = false;
    for i in 0..6 {
        panel.add_message(MessageLevel::Info, &format!("m{}", i));
    }
    let texts = |p: &ConsolePanel, limit: usize| -> Vec<String> {
        p.get_displayed_messages(limit).iter().map(|m| m.text.clone()).collect()
    };
    assert_eq!(texts(&panel, 10).len(), 6);
    assert_eq!(texts(&panel, 2), vec!["m4", "m5"]);
    panel.scroll_up();
    assert_eq!(texts(&panel, 2), vec!["m3", "m4"]);
    panel.scroll_up();
    panel.scroll_up();
    panel.scroll_up();
    panel.scroll_up();
    assert_eq!(texts(&panel, 2), vec!["m0", "m1"]);
    panel.scroll_down();
    assert_eq!(panel.scroll_position, 4);
    // newest first
    assert_eq!(panel.get_displayed_strings(2), vec!["[INFO] m1".to_string(), "[INFO] m0".to_string()]);
    // a new message scrolls back to the end while auto-scroll is on
    panel.add_message(MessageLevel::Success, "done");
    assert_eq!(panel.scroll_position, 0);
    assert_eq!(panel.get_displayed_strings(1), vec!["[OK] done".to_string()]);
    panel.scroll_down();
    assert_eq!(panel.scroll_position, 0);
}

#[test]
fn errors_only_shows_only_errors() {
    let errors = MessageFilter::errors_only();
    assert!(!errors.warning && !errors.info && !errors.debug && !errors.success && !errors.commands);
    let mut panel = ConsolePanel::new();
    panel.add_message(MessageLevel::Warning, "w");
    panel.add_message(MessageLevel::Error, "e");
    panel.add_message(MessageLevel::Success, "s");
    panel.set_filter(MessageFilter::errors_only());
    let texts: Vec<String> = panel.get_filtered_messages().iter().map(|m| m.text.clone()).collect();
    assert_eq!(texts, vec!["e"]);
}
