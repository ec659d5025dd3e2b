use gcodekit5_ui::file_management::{file_name_of, CommandCounts, FileReader};
use gcodekit5_ui::file_management::{
    paths_equal, BackupEntry, BackupManager, DiffLine, DragDropEvent, ExportFormat, FileComparison,
    FileExporter, FileTemplate, FileValidator, ProcessingResult, RecentFile, RecentFilesManager,
    TemplateLibrary, ValidationError,
};
use std::time::SystemTime;

fn recent(path: &str) -> RecentFile {
    RecentFile { path: path.to_string(), name: path.to_string(), accessed: SystemTime::now(), size: 1 }
}

fn paths(m: &RecentFilesManager) -> Vec<String> {
    m.get_recent().iter().map(|f| f.path.clone()).collect()
}

#[test]
fn path_comparison_by_components() {
    assert!(paths_equal("/a/b", "/a//b/"));
    assert!(paths_equal("a/./b", "a/b"));
    assert!(paths_equal("./a", "./a/."));
    assert!(!paths_equal("./a", "a"));
    assert!(!paths_equal("/a", "a"));
    assert!(!paths_equal("a/../b", "b"));
    assert!(!paths_equal("", "."));
    assert!(paths_equal("/.", "/"));
    assert!(!paths_equal("a/b", "a/c"));
}

#[test]
fn recent_files_newest_first_without_duplicates() {
    let mut m = RecentFilesManager::new(3);
    m.add(recent("/a"));
    m.add(recent("/b"));
    m.add(recent("/a/"));
    assert_eq!(paths(&m), vec!["/a/", "/b"]);
    m.add(recent("/c"));
    m.add(recent("/d"));
    assert_eq!(paths(&m), vec!["/d", "/c", "/a/"]);
    m.remove("/c/.");
    assert_eq!(paths(&m), vec!["/d", "/a/"]);
    m.clear();
    assert!(m.get_recent().is_empty());
    assert_eq!(RecentFilesManager::default().max_files, 10);
    let mut none = RecentFilesManager::new(0);
    none.add(recent("/a"));
    assert!(none.get_recent().is_empty());
}

#[test]
fn processing_result() {
    let mut r = ProcessingResult::new("in.nc".to_string());
    assert!(r.is_successful());
    assert_eq!(r.source, "in.nc");
    r.errors.push("bad".to_string());
    assert!(!r.is_successful());
}

#[test]
fn export_formats() {
    let content = "G0 X1\nM3 \"on\"";
    assert_eq!(FileExporter::export_content(content, ExportFormat::GCode), content);
    assert_eq!(
        FileExporter::export_content(content, ExportFormat::CSV),
        "Line,Command\n1,\"G0 X1\"\n2,\"M3 \"\"on\"\"\"\n"
    );
    assert_eq!(FileExporter::to_csv(""), "Line,Command\n");
    assert_eq!(
        FileExporter::export_content(content, ExportFormat::JSON),
        "{\"lines\": 2, \"commands\": [\"G0 X1\", \"M3 \\\"on\\\"\"]}"
    );
    assert_eq!(FileExporter::to_json(""), "{\"lines\": 0, \"commands\": []}");
}

#[test]
fn drag_and_drop() {
    let e = DragDropEvent::new(vec!["a.nc".to_string(), "b.nc".to_string()], (3, -4));
    assert_eq!(e.first_file(), Some(&"a.nc".to_string()));
    assert_eq!(e.clone().position, (3, -4));
    assert_eq!(DragDropEvent::new(vec![], (0, 0)).first_file(), None);
}

#[test]
fn validation_flags_lines_not_starting_with_g_m_or_t() {
    let errors = FileValidator::validate("G0 X1\n  \n x1\nM3\n; note\n\tT1\nN10 G1");
    let lines: Vec<usize> = errors.iter().map(|e| e.line_number).collect();
    assert_eq!(lines, vec![3, 5, 7]);
    for e in &errors {
        assert_eq!(e.message, "Line does not start with G, M, or T");
        assert_eq!(e.suggestion.as_deref(), Some("Add valid G-code command at the beginning"));
    }
    assert!(FileValidator::validate("").is_empty());
    let e = ValidationError::new(4, "m");
    assert_eq!(e.suggestion, None);
    assert_eq!(e.with_suggestion("s").suggestion, Some("s".to_string()));
}

#[test]
fn comparison_line_by_line() {
    let c = FileComparison::compare("a\nb\nc\nd", "a\nx\nc");
    assert_eq!(c.added_count, 1);
    assert_eq!(c.removed_count, 1);
    let kinds: Vec<String> = c
        .lines
        .iter()
        .map(|d| match d {
            DiffLine::Unchanged(s) => format!("={}", s),
            DiffLine::Added(s) => format!("+{}", s),
            DiffLine::Removed(s) => format!("-{}", s),
        })
        .collect();
    assert_eq!(kinds, vec!["=a", "+x", "=c", "-d"]);
    let same = FileComparison::compare("G0\nG1", "G0\nG1");
    assert_eq!((same.added_count, same.removed_count), (0, 0));
    assert!(same.lines.iter().all(|d| matches!(d, DiffLine::Unchanged(_))));
    let grown = FileComparison::compare("a", "a\nb\nc");
    assert_eq!((grown.added_count, grown.removed_count), (2, 0));
    assert_eq!(FileComparison::default().lines.len(), 0);
}

#[test]
fn backup_entries_get_uuid_identifiers() {
    let e = BackupEntry::new("/w/a.nc".to_string(), "/b/a.nc_backup".to_string()).unwrap();
    let id: Vec<char> = e.id.chars().collect();
    assert_eq!(id.len(), 36);
    for (i, c) in id.iter().enumerate() {
        if [8, 13, 18, 23].contains(&i) {
            assert_eq!(*c, '-');
        } else {
            assert!(c.is_ascii_hexdigit() && !c.is_ascii_uppercase());
        }
    }
    assert_eq!(id[14], '4');
    assert!(['8', '9', 'a', 'b'].contains(&id[19]));
    let other = BackupEntry::new("/w/a.nc".to_string(), "/b/a.nc_backup".to_string()).unwrap();
    assert_ne!(e.id, other.id);
}

#[test]
fn backups_are_found_by_identifier() {
    let mut m = BackupManager::new("/b".to_string());
    assert!(m.find_backup("x").is_none());
    let e1 = BackupEntry::new("/w/a.nc".to_string(), "/b/a.nc_backup".to_string()).unwrap();
    let e2 = BackupEntry::new("/w/c.nc".to_string(), "/b/c.nc_backup".to_string()).unwrap();
    let id2 = e2.id.clone();
    m.record_backup(e1);
    m.record_backup(e2);
    assert_eq!(m.find_backup(&id2).unwrap().original_path, "/w/c.nc");
    assert!(m.find_backup("missing").is_none());
    assert_eq!(m.backup_dir, "/b");
}

#[test]
fn template_variables() {
    let mut t = FileTemplate::new("job", "Job", "G0 X{{x}} Y{{y}} ; {{x}}");
    t.set_variable("x", "1");
    t.set_variable("y", "2");
    t.set_variable("x", "5");
    assert_eq!(t.variables.len(), 2);
    assert_eq!(t.expand(), "G0 X5 Y2 ; 5");
    let plain = FileTemplate::new("p", "P", "{{z}}");
    assert_eq!(plain.expand(), "{{z}}");
}

#[test]
fn template_library_lookup() {
    let mut lib = TemplateLibrary::new();
    lib.add_template(FileTemplate::new("a", "First", "G0"));
    lib.add_template(FileTemplate::new("b", "Second", "G1"));
    lib.add_template(FileTemplate::new("a", "Again", "G2"));
    assert_eq!(lib.list_templates().len(), 2);
    assert_eq!(lib.get_template("a").unwrap().name, "Again");
    assert_eq!(lib.get_template("b").unwrap().content, "G1");
    assert!(lib.get_template("c").is_none());
    assert!(TemplateLibrary::default().list_templates().is_empty());
}

#[test]
fn file_names_and_backup_paths() {
    assert_eq!(file_name_of("/usr/bin/"), Some("bin".to_string()));
    assert_eq!(file_name_of("tmp/foo.txt"), Some("foo.txt".to_string()));
    assert_eq!(file_name_of("foo.txt/."), Some("foo.txt".to_string()));
    assert_eq!(file_name_of("foo.txt/.//"), Some("foo.txt".to_string()));
    assert_eq!(file_name_of("foo.txt/.."), None);
    assert_eq!(file_name_of("/"), None);
    assert_eq!(file_name_of(""), None);
    assert_eq!(file_name_of("."), None);
    assert_eq!(RecentFile::name_for("/jobs/part.nc"), "part.nc");
    assert_eq!(RecentFile::name_for("/"), "Unknown");
    let m = BackupManager::new("/backups".to_string());
    assert_eq!(m.backup_path_for("/w/a.nc"), "/backups/a.nc_backup");
    assert_eq!(m.backup_path_for("/"), "/backups/_backup");
    assert_eq!(BackupManager::new("/b/".to_string()).backup_path_for("x"), "/b/x_backup");
    assert_eq!(BackupManager::new(String::new()).backup_path_for("x"), "x_backup");
}

#[test]
fn chunked_reading_and_line_counts() {
    let content = "a\nb\nc\nd\ne";
    assert_eq!(FileReader::chunk_content(content, 2), vec!["a\nb", "c\nd", "e"]);
    assert_eq!(FileReader::chunk_content(content, 5), vec!["a\nb\nc\nd\ne"]);
    assert_eq!(FileReader::chunk_content(content, 9), vec!["a\nb\nc\nd\ne"]);
    assert_eq!(FileReader::chunk_content("", 3), Vec::<String>::new());
    assert_eq!(FileReader::chunk_content("x\r\ny\n", 1), vec!["x", "y"]);
    assert_eq!(FileReader::count_lines(content), 5);
    assert_eq!(FileReader::count_lines("a\n\n"), 2);
    assert_eq!(FileReader::count_lines(""), 0);
}

#[test]
fn command_counts() {
    let mut c = CommandCounts::new();
    for cmd in ["G0", "G1", "G0", "M3", "G0"] {
        c.count_command(cmd);
    }
    assert_eq!(c.count_of("G0"), 3);
    assert_eq!(c.count_of("G1"), 1);
    assert_eq!(c.count_of("M5"), 0);
    let order: Vec<&str> = c.entries.iter().map(|e| e.0.as_str()).collect();
    assert_eq!(order, vec!["G0", "G1", "M3"]);
    assert!(CommandCounts::default().entries.is_empty());
}
