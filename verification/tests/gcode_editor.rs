use gcodekit5_ui::gcode_editor::{GcodeEditor, GcodeFile, GcodeLine, TokenType};

#[test]
fn test_tokenize_gcommand() {
    let tokens = GcodeLine::tokenize("G00 X10 Y20 Z5");
    assert!(tokens.iter().any(|t| t.token_type == TokenType::GCommand));
    assert!(tokens.iter().any(|t| t.token_type == TokenType::Coordinate));
}

#[test]
fn test_tokenize_comment() {
    let tokens = GcodeLine::tokenize("; This is a comment");
    assert_eq!(tokens[0].token_type, TokenType::Comment);
}

#[test]
fn test_gcode_file_load() {
    let mut file = GcodeFile::new();
    file.load_content("G00 X10\nG01 Y20\nG00 Z5");
    assert_eq!(file.get_lines().len(), 3);
    assert_eq!(file.get_lines()[0].line_number, 1);
}

#[test]
fn test_mark_executed() {
    let mut file = GcodeFile::new();
    file.load_content("G00 X10\nG01 Y20\nG00 Z5");
    file.mark_executed(1);
    assert!(file.get_lines()[0].executed);
    assert!(!file.get_lines()[1].executed);
}

#[test]
fn test_set_current_line() {
    let mut file = GcodeFile::new();
    file.load_content("G00 X10\nG01 Y20\nG00 Z5");
    file.set_current_line(2);
    assert!(!file.get_lines()[0].is_current);
    assert!(file.get_lines()[1].is_current);
    assert_eq!(file.get_current_line(), 2);
}

#[test]
fn test_editor_content() {
    let mut editor = GcodeEditor::new();
    editor.load_content("G00 X10\nG01 Y20").expect("load failed");
    editor.set_current_line(1);
    let content = editor.get_display_content();
    assert!(content.contains("▶")); // Current line marker shows for current line

    // Now test executed marker on a different line
    editor.set_current_line(2);
    editor.mark_line_executed(1);
    let content = editor.get_display_content();
    assert!(content.contains("✓")); // Executed marker shows for executed line
}

#[test]
fn test_search() {
    let mut editor = GcodeEditor::new();
    editor.load_content("G00 X10\nG01 Y20\nG00 X30").expect("load failed");
    let results = editor.search("G00");
    assert_eq!(results.len(), 2);
}

#[test]
fn test_search_case_insensitive() {
    let mut editor = GcodeEditor::new();
    editor.load_content("g00 X10\nG01 Y20").expect("load failed");
    let results = editor.search("G00");
    assert_eq!(results.len(), 1);
}

#[test]
fn test_replace_all() {
    let mut editor = GcodeEditor::new();
    editor.load_content("X10 Y10\nX20 Y10").expect("load failed");
    let count = editor.replace_all("Y10", "Y30");
    assert_eq!(count, 2);

    let content = editor.get_plain_content();
    assert!(content.contains("Y30"));
    assert!(!content.contains("Y10"));
}

#[test]
fn test_insert_text() {
    let mut editor = GcodeEditor::new();
    editor.load_content("G00 X10").expect("load failed");
    editor.set_editable(true);

    let result = editor.insert_text(1, 4, " Y20");
    assert!(result);

    let text = editor.get_line_text(1);
    assert_eq!(text, Some("G00  Y20X10".to_string()));
}

#[test]
fn test_delete_char() {
    let mut editor = GcodeEditor::new();
    editor.load_content("G00 X10").expect("load failed");
    editor.set_editable(true);

    let result = editor.delete_char(1, 3);
    assert!(result);

    let text = editor.get_line_text(1);
    assert_eq!(text, Some("G00X10".to_string()));
}

#[test]
fn test_read_only_mode() {
    let mut editor = GcodeEditor::new();
    editor.load_content("G00 X10").expect("load failed");
    editor.set_read_only(true);

    let result = editor.insert_text(1, 0, "test");
    assert!(!result);

    let text = editor.get_line_text(1);
    assert_eq!(text, Some("G00 X10".to_string()));
}

#[test]
fn test_file_path_tracking() {
    let mut editor = GcodeEditor::new();
    editor.load_content("G00 X10").expect("load failed");

    let path = Some("/path/to/file.gcode".to_string());
    editor.set_file_path(path.clone());

    assert_eq!(editor.get_file_path(), path);
}

#[test]
fn tokens_with_positions() {
    let tokens = GcodeLine::tokenize("G01 x5 F100 ; go");
    let view: Vec<(TokenType, &str, usize, usize)> =
        tokens.iter().map(|t| (t.token_type, t.text.as_str(), t.start, t.end)).collect();
    assert_eq!(
        view,
        vec![
            (TokenType::GCommand, "G01", 0, 3),
            (TokenType::Coordinate, "x5", 4, 6),
            (TokenType::Parameter, "F100", 7, 11),
            (TokenType::Comment, "; go", 12, 16),
        ]
    );
    // the last word ends at the byte length of the line
    let t = GcodeLine::tokenize("M3 S1é");
    assert_eq!(t[0].token_type, TokenType::MCommand);
    assert_eq!((t[1].start, t[1].end), (3, 7));
    assert!(GcodeLine::tokenize("   ").is_empty());
}

#[test]
fn token_classes() {
    assert_eq!(GcodeLine::classify_token("g1"), TokenType::GCommand);
    assert_eq!(GcodeLine::classify_token("m5"), TokenType::MCommand);
    assert_eq!(GcodeLine::classify_token("Z-1"), TokenType::Coordinate);
    assert_eq!(GcodeLine::classify_token("p2"), TokenType::Parameter);
    assert_eq!(GcodeLine::classify_token(";x"), TokenType::Comment);
    assert_eq!(GcodeLine::classify_token("N10"), TokenType::Normal);
    assert_eq!(GcodeLine::classify_token(""), TokenType::Normal);
}

#[test]
fn plain_content_round_trip() {
    let mut editor = GcodeEditor::new();
    let text = "G00 X10\n\nG01 Y20 ; move\nM30";
    editor.load_content(text).unwrap();
    assert_eq!(editor.get_line_count(), 4);
    assert_eq!(editor.get_plain_content(), text);
    // lines end at "\n" or "\r\n"; a trailing newline adds no line
    editor.load_content("A\r\nB\n").unwrap();
    assert_eq!(editor.get_all_lines(), vec!["A".to_string(), "B".to_string()]);
    assert_eq!(editor.get_plain_content(), "A\nB");
    editor.load_content("").unwrap();
    assert_eq!(editor.get_line_count(), 0);
    assert_eq!(editor.get_plain_content(), "");
}

#[test]
fn display_content_layout() {
    let mut file = GcodeFile::new();
    let text: Vec<String> = (1..=10).map(|i| format!("G1 X{}", i)).collect();
    file.load_content(&text.join("\n"));
    file.set_current_line(10);
    file.mark_executed(2);
    let shown = file.get_formatted_content();
    let rows: Vec<&str> = shown.lines().collect();
    assert_eq!(rows[0], " 1 |   G1 X1");
    assert_eq!(rows[1], " 2 | ✓ G1 X2");
    assert_eq!(rows[9], "10 | ▶ G1 X10");
    assert!(shown.ends_with('\n'));
    file.clear_execution_state();
    assert_eq!(file.get_current_line(), 0);
    assert!(file.get_lines().iter().all(|l| !l.executed && !l.is_current));
}

#[test]
fn current_line_moves_and_out_of_range_is_ignored() {
    let mut editor = GcodeEditor::new();
    editor.load_content("A\nB\nC").unwrap();
    editor.set_current_line(1);
    editor.set_current_line(3);
    editor.set_current_line(7);
    assert_eq!(editor.get_current_line(), 3);
    let mut file = GcodeFile::default();
    file.load_content("A\nB\nC");
    file.set_current_line(1);
    file.set_current_line(3);
    let marks: Vec<bool> = file.get_lines().iter().map(|l| l.is_current).collect();
    assert_eq!(marks, vec![false, false, true]);
    assert!(file.get_line(0).is_none());
    assert_eq!(file.get_line(2).unwrap().text, "B");
}

#[test]
fn search_reports_byte_offsets_of_each_hit() {
    let mut editor = GcodeEditor::new();
    editor.load_content("aaa\nxAx").unwrap();
    assert_eq!(editor.search("aa"), vec![(1, 0), (1, 1)]);
    assert_eq!(editor.search("A"), vec![(1, 0), (1, 1), (1, 2), (2, 1)]);
    assert_eq!(editor.search_checked("a"), Some(vec![(1, 0), (1, 1), (1, 2), (2, 1)]));
    // an empty query stops on a slice past the end of the line
    assert_eq!(editor.search_checked(""), None);
    let mut empty = GcodeEditor::new();
    empty.load_content("").unwrap();
    assert_eq!(empty.search_checked(""), Some(vec![]));
}

#[test]
fn replace_counts_changed_lines_and_keeps_marks() {
    let mut editor = GcodeEditor::new();
    editor.load_content("G0 X1 X1\nG1 Y2\nX1").unwrap();
    editor.mark_line_executed(1);
    assert_eq!(editor.replace_all("X1", "X9"), 2);
    assert_eq!(editor.get_all_lines(), vec!["G0 X9 X9", "G1 Y2", "X9"]);
    assert_eq!(editor.replace_all("Q", "R"), 0);
    assert!(editor.replace_at(2, 3, "Y2", "Y7"));
    assert_eq!(editor.get_line_text(2), Some("G1 Y7".to_string()));
    assert!(!editor.replace_at(2, 3, "Y2", "Y8"));
    assert!(!editor.replace_at(4, 0, "X", "Y"));
    assert!(!editor.replace_at(3, 1, "99", ""));
}

#[test]
fn delete_undoes_insert() {
    let mut editor = GcodeEditor::new();
    editor.load_content("G1 é X2").unwrap();
    assert!(editor.insert_text(1, 5, "Z"));
    assert_eq!(editor.get_line_text(1), Some("G1 éZ X2".to_string()));
    assert!(editor.delete_char(1, 5));
    assert_eq!(editor.get_line_text(1), Some("G1 é X2".to_string()));
    assert!(editor.delete_char(1, 3));
    assert_eq!(editor.get_line_text(1), Some("G1  X2".to_string()));
    assert!(!editor.delete_char(1, 6));
    assert!(!editor.insert_text(2, 0, "x"));
    assert!(editor.insert_text(1, 6, "!"));
    assert_eq!(editor.get_line_text(1), Some("G1  X2!".to_string()));
}

#[test]
fn editor_flags_and_defaults() {
    let mut editor = GcodeEditor::default();
    assert!(editor.is_editable());
    assert!(!editor.is_read_only());
    editor.set_read_only(true);
    assert!(editor.is_read_only());
    assert!(!editor.is_editable());
    assert!(!editor.delete_char(1, 0));
    assert_eq!(editor.get_file_path(), None);
    editor.load_content("G0").unwrap();
    editor.clear_execution_state();
    assert_eq!(editor.get_current_line(), 0);
    assert_eq!(editor.get_line_text(0), None);
}

#[test]
fn lines_can_be_edited_in_place() {
    let mut file = GcodeFile::new();
    file.load_content("G0\nG1");
    file.get_lines_mut()[1].executed = true;
    assert!(file.get_lines()[1].executed);
    let line = GcodeLine::new(7, "T1 M6".to_string());
    assert_eq!(line.line_number, 7);
    assert_eq!(line.tokens.len(), 2);
}

#[test]
fn classification_from_upper_case_and_lowered_hits() {
    assert_eq!(GcodeLine::classify_upper("g1", "G1"), TokenType::GCommand);
    assert_eq!(GcodeLine::classify_upper("x", "X"), TokenType::Coordinate);
    assert_eq!(GcodeLine::classify_upper(";a", ";A"), TokenType::Comment);
    assert_eq!(GcodeLine::classify_upper("", ""), TokenType::Normal);
    assert_eq!(GcodeLine::classify_upper("n5", "N5"), TokenType::Normal);
    assert_eq!(GcodeEditor::hits_in_lowered(4, b"abab", b"ab"), vec![(4, 0), (4, 2)]);
    assert_eq!(GcodeEditor::hits_in_lowered(1, b"aaa", b"aa"), vec![(1, 0), (1, 1)]);
    assert_eq!(GcodeEditor::hits_in_lowered(2, b"xyz", b"q"), vec![]);
}
