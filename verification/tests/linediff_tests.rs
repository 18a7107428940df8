use site_compare::linediff::{changed_file_report, is_blank_line, strip_line_terminator, LineChange};
use site_compare::stats::percent_similar;

#[test]
fn one_line_edit_counts_one_each_way() {
    let before = "line1\nline2\n".to_string();
    let after = "line1\nline2x\n".to_string();
    let cf = changed_file_report("/a.html".to_string(), &before, &after);
    assert_eq!(cf.path, "/a.html");
    assert_eq!(cf.lines_added, 1);
    assert_eq!(cf.lines_removed, 1);
    let mut saw_delete = false;
    let mut saw_insert = false;
    for line in &cf.lines {
        match line {
            LineChange::Delete(t) => {
                assert_eq!(t, "line2");
                saw_delete = true;
            }
            LineChange::Insert(t) => {
                assert_eq!(t, "line2x");
                saw_insert = true;
            }
            LineChange::Equal(t) => assert_eq!(t, "line1"),
        }
    }
    assert!(saw_delete && saw_insert);
}

#[test]
fn blank_deletion_does_not_count() {
    let before = "text\n\n".to_string();
    let after = "text\n".to_string();
    let cf = changed_file_report("/b.html".to_string(), &before, &after);
    assert_eq!(cf.lines_added, 0);
    assert_eq!(cf.lines_removed, 0);
    assert!(cf.lines.iter().any(|l| matches!(l, LineChange::Delete(t) if t.is_empty())));
}

#[test]
fn nonblank_deletion_counts() {
    let before = "a\nx\nb\n".to_string();
    let after = "a\nb\n".to_string();
    let cf = changed_file_report("/c.html".to_string(), &before, &after);
    assert_eq!(cf.lines_added, 0);
    assert_eq!(cf.lines_removed, 1);
}

#[test]
fn pure_insertion_counts_added_only() {
    let before = "a\n".to_string();
    let after = "a\nb\n".to_string();
    let cf = changed_file_report("/d.html".to_string(), &before, &after);
    assert_eq!(cf.lines_added, 1);
    assert_eq!(cf.lines_removed, 0);
}

#[test]
fn full_rewrite_counts_both_sides() {
    let before = "a\n".to_string();
    let after = "b\n".to_string();
    let cf = changed_file_report("/e.html".to_string(), &before, &after);
    assert_eq!(cf.lines_added, 1);
    assert_eq!(cf.lines_removed, 1);
}

#[test]
fn strip_line_terminator_variants() {
    assert_eq!(strip_line_terminator("x\n"), "x");
    assert_eq!(strip_line_terminator("x\r\n"), "x");
    assert_eq!(strip_line_terminator("x\r"), "x");
    assert_eq!(strip_line_terminator("x"), "x");
    assert_eq!(strip_line_terminator("\n"), "");
    assert_eq!(strip_line_terminator(""), "");
    assert_eq!(strip_line_terminator("a\nb"), "a\nb");
}

#[test]
fn blank_line_recognition() {
    assert!(is_blank_line(""));
    assert!(is_blank_line(" \t\r\n"));
    assert!(is_blank_line("\n"));
    assert!(!is_blank_line(" a "));
    assert!(!is_blank_line("."));
}

#[test]
fn percent_similar_exact_values() {
    assert_eq!(percent_similar(0, 0), 100);
    assert_eq!(percent_similar(0, 1), 0);
    assert_eq!(percent_similar(1, 1), 100);
    assert_eq!(percent_similar(1, 2), 50);
    assert_eq!(percent_similar(1, 3), 33);
    assert_eq!(percent_similar(2, 3), 67);
    assert_eq!(percent_similar(99, 100), 99);
    assert_eq!(percent_similar(1, 200), 1);
    assert_eq!(percent_similar(1, 201), 0);
}
