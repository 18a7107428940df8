use site_compare::compare::{compare_sites, Difference};
use site_compare::snapshot::Snapshot;
use site_compare::stats::{partition_report, summarize};

fn snapshot_of(entries: &[(&str, &str)]) -> Snapshot {
    let mut s = Snapshot::new();
    for (path, content) in entries {
        s.insert(path.to_string(), content.to_string());
    }
    s
}

#[test]
fn identical_single_file() {
    let before = snapshot_of(&[("/a.html", "hi")]);
    let after = snapshot_of(&[("/a.html", "hi")]);
    let c = compare_sites(before, after);
    assert_eq!(c.identical, vec!["/a.html".to_string()]);
    assert_eq!(c.differences.len(), 0);
    let rd = partition_report(c);
    let s = summarize(&rd);
    assert_eq!(s.percent_similar, 100);
}

#[test]
fn removed_single_file() {
    let before = snapshot_of(&[("/a.html", "hi")]);
    let after = snapshot_of(&[]);
    let c = compare_sites(before, after);
    assert_eq!(c.identical.len(), 0);
    assert_eq!(c.differences.len(), 1);
    assert_eq!(c.differences[0].0, "/a.html");
    assert!(matches!(c.differences[0].1, Difference::Removed));
    let rd = partition_report(c);
    assert_eq!(rd.removed, vec!["/a.html".to_string()]);
    let s = summarize(&rd);
    assert_eq!(s.percent_similar, 0);
}

#[test]
fn added_single_file() {
    let before = snapshot_of(&[]);
    let after = snapshot_of(&[("/new.html", "hi")]);
    let c = compare_sites(before, after);
    assert_eq!(c.identical.len(), 0);
    assert_eq!(c.differences.len(), 1);
    assert_eq!(c.differences[0].0, "/new.html");
    assert!(matches!(c.differences[0].1, Difference::Added));
    let rd = partition_report(c);
    assert_eq!(rd.added, vec!["/new.html".to_string()]);
    let s = summarize(&rd);
    assert_eq!(s.percent_similar, 0);
}

#[test]
fn changed_single_line() {
    let before = snapshot_of(&[("/a.html", "line1\nline2\n")]);
    let after = snapshot_of(&[("/a.html", "line1\nline2x\n")]);
    let c = compare_sites(before, after);
    assert_eq!(c.identical.len(), 0);
    assert_eq!(c.differences.len(), 1);
    assert_eq!(c.differences[0].0, "/a.html");
    assert!(matches!(
        c.differences[0].1,
        Difference::Changed { .. }
    ));
    let rd = partition_report(c);
    assert_eq!(rd.identical.len(), 0);
    assert_eq!(rd.changed.len(), 1);
    let cf = &rd.changed[0];
    assert_eq!(cf.path, "/a.html");
    assert_eq!(cf.lines_added, 1);
    assert_eq!(cf.lines_removed, 1);
    assert_eq!(rd.total_lines_added, 1);
    assert_eq!(rd.total_lines_removed, 1);
}

#[test]
fn blank_line_change_reclassified_as_identical() {
    let before = snapshot_of(&[("/b.html", "text\n\n")]);
    let after = snapshot_of(&[("/b.html", "text\n")]);
    let c = compare_sites(before, after);
    assert_eq!(c.differences.len(), 1);
    assert!(matches!(
        c.differences[0].1,
        Difference::Changed { .. }
    ));
    let rd = partition_report(c);
    assert_eq!(rd.changed.len(), 0);
    assert_eq!(rd.identical, vec!["/b.html".to_string()]);
    assert_eq!(rd.total_lines_added, 0);
    assert_eq!(rd.total_lines_removed, 0);
    let s = summarize(&rd);
    assert_eq!(s.percent_similar, 100);
}

#[test]
fn compare_snapshot_with_itself_is_all_identical() {
    let entries: &[(&str, &str)] = &[
        ("/index.html", "<p>home</p>"),
        ("/blog/post.html", "words\nmore words\n"),
        ("/feed.xml", "<feed></feed>"),
    ];
    let c = compare_sites(snapshot_of(entries), snapshot_of(entries));
    assert_eq!(c.identical.len(), 3);
    assert_eq!(c.differences.len(), 0);
    let rd = partition_report(c);
    let s = summarize(&rd);
    assert_eq!(s.percent_similar, 100);
}

#[test]
fn every_path_lands_in_exactly_one_bucket() {
    let before = snapshot_of(&[
        ("/same.html", "same"),
        ("/gone.html", "old"),
        ("/edit.html", "one\n"),
    ]);
    let after = snapshot_of(&[
        ("/same.html", "same"),
        ("/edit.html", "two\n"),
        ("/new.html", "fresh"),
    ]);
    let c = compare_sites(before, after);
    let all_paths = [
        "/same.html",
        "/gone.html",
        "/edit.html",
        "/new.html",
    ];
    for p in all_paths {
        let in_identical = c.identical.iter().filter(|q| q.as_str() == p).count();
        let in_differences = c.differences.iter().filter(|e| e.0.as_str() == p).count();
        assert_eq!(in_identical + in_differences, 1, "path {p} must land exactly once");
    }
    assert_eq!(c.identical, vec!["/same.html".to_string()]);
    assert_eq!(c.differences.len(), 3);
    assert_eq!(c.differences[0].0, "/gone.html");
    assert!(matches!(c.differences[0].1, Difference::Removed));
    assert_eq!(c.differences[1].0, "/edit.html");
    assert!(matches!(c.differences[1].1, Difference::Changed { .. }));
    assert_eq!(c.differences[2].0, "/new.html");
    assert!(matches!(c.differences[2].1, Difference::Added));
}

#[test]
fn changed_pair_records_both_contents() {
    let before = snapshot_of(&[("/a.html", "old text")]);
    let after = snapshot_of(&[("/a.html", "new text")]);
    let c = compare_sites(before, after);
    match &c.differences[0].1 {
        Difference::Changed { before, after } => {
            assert_eq!(before, "old text");
            assert_eq!(after, "new text");
        }
        _ => panic!("expected a changed difference"),
    }
}

#[test]
fn snapshot_insert_replaces_and_keeps_order() {
    let mut s = Snapshot::new();
    assert_eq!(s.len(), 0);
    s.insert("/a".to_string(), "1".to_string());
    s.insert("/b".to_string(), "2".to_string());
    s.insert("/a".to_string(), "3".to_string());
    assert_eq!(s.len(), 2);
    assert_eq!(s.get(&"/a".to_string()), Some(&"3".to_string()));
    assert_eq!(s.get(&"/b".to_string()), Some(&"2".to_string()));
    assert_eq!(s.get(&"/c".to_string()), None);
    let (p, c) = s.entry_at(0);
    assert_eq!(p, "/a");
    assert_eq!(c, "3");
}
