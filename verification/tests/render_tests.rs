use site_compare::compare::compare_sites;
use site_compare::htmldoc::{append_escaped, append_u64, el, render_document, void_el};
use site_compare::report::{diff_indicator, render_report};
use site_compare::snapshot::Snapshot;

fn snapshot_of(entries: &[(&str, &str)]) -> Snapshot {
    let mut s = Snapshot::new();
    for (path, content) in entries {
        s.insert(path.to_string(), content.to_string());
    }
    s
}

#[test]
fn escaping_neutralizes_html_specials() {
    let mut out = String::new();
    append_escaped(&mut out, "a<b&\"c\">");
    assert_eq!(out, "a&lt;b&amp;&quot;c&quot;&gt;");
}

#[test]
fn escaping_appends_after_existing_text() {
    let mut out = "pre:".to_string();
    append_escaped(&mut out, "x");
    assert_eq!(out, "pre:x");
}

#[test]
fn decimal_rendering() {
    let mut out = String::new();
    append_u64(&mut out, 0);
    out.push(' ');
    append_u64(&mut out, 7);
    out.push(' ');
    append_u64(&mut out, 42);
    out.push(' ');
    append_u64(&mut out, 100);
    out.push(' ');
    append_u64(&mut out, 9876543210);
    assert_eq!(out, "0 7 42 100 9876543210");
}

#[test]
fn renders_nested_elements_with_attributes() {
    let doc = el("div").attr("class", "x".to_string()).elem(
        el("span").text("a<b".to_string()),
    );
    let html = render_document(&doc);
    assert_eq!(
        html,
        "<!DOCTYPE html><div class=\"x\"><span>a&lt;b</span></div>"
    );
}

#[test]
fn renders_void_element_without_closing_tag() {
    let doc = el("head").elem(void_el("meta").attr("charset", "utf-8".to_string()));
    let html = render_document(&doc);
    assert_eq!(html, "<!DOCTYPE html><head><meta charset=\"utf-8\"></head>");
}

#[test]
fn renders_attribute_with_empty_value_as_bare_name() {
    let doc = el("div").attr("hidden", String::new());
    let html = render_document(&doc);
    assert_eq!(html, "<!DOCTYPE html><div hidden></div>");
}

#[test]
fn indicator_shows_both_counts() {
    let html = render_document(&diff_indicator(3, 1));
    assert_eq!(
        html,
        "<!DOCTYPE html><span class=\"flex gap1\"><span class=\"code diff-indicator diff-add\">+3</span><span class=\"code diff-indicator diff-remove\">-1</span></span>"
    );
}

#[test]
fn report_on_equal_snapshots_says_fully_similar() {
    let entries: &[(&str, &str)] = &[("/a.html", "hi")];
    let c = compare_sites(snapshot_of(entries), snapshot_of(entries));
    let report = render_report(c);
    assert!(report.starts_with("<!DOCTYPE html><html lang=\"en\">"));
    assert!(report.contains("100% Similar"));
    assert!(report.contains("Identical files (1)"));
    assert!(report.contains("Added files (0)"));
    assert!(report.contains("Removed files (0)"));
    assert!(report.contains("Changed files (0)"));
    assert!(report.contains("<code>/a.html</code>"));
    assert!(report.ends_with("</body></html>"));
}

#[test]
fn report_on_empty_snapshots_is_defined_and_fully_similar() {
    let c = compare_sites(snapshot_of(&[]), snapshot_of(&[]));
    let report = render_report(c);
    assert!(report.contains("100% Similar"));
    assert!(report.contains("width: 100%"));
}

#[test]
fn report_links_changed_file_to_its_diff_block() {
    let before = snapshot_of(&[("/a.html", "line1\nline2\n")]);
    let after = snapshot_of(&[("/a.html", "line1\nline2x\n")]);
    let report = render_report(compare_sites(before, after));
    assert!(report.contains("0% Similar"));
    assert!(report.contains("Changed files (1)"));
    // The anchor uses the slug of the path, not the raw path.
    assert!(report.contains("href=\"#diff-a-html\""));
    assert!(report.contains("id=\"diff-a-html\""));
    assert!(!report.contains("href=\"#diff-/a.html\""));
    // The diff lines carry their sign, style and line break.
    assert!(report.contains("<span class=\"diff-line diff-remove\">-line2\n</span>"));
    assert!(report.contains("<span class=\"diff-line diff-add\">+line2x\n</span>"));
    assert!(report.contains("<span> line1\n</span>"));
}

#[test]
fn report_escapes_markup_in_diff_lines() {
    let before = snapshot_of(&[("/p.html", "<p>x</p>\n")]);
    let after = snapshot_of(&[("/p.html", "<p>y &amp; z</p>\n")]);
    let report = render_report(compare_sites(before, after));
    assert!(report.contains("-&lt;p&gt;x&lt;/p&gt;"));
    assert!(report.contains("+&lt;p&gt;y &amp;amp; z&lt;/p&gt;"));
    assert!(!report.contains("<p>x</p>"));
}

#[test]
fn report_is_identical_across_runs_on_identical_input() {
    let build = || {
        let before = snapshot_of(&[("/a.html", "one\ntwo\n"), ("/b.html", "x")]);
        let after = snapshot_of(&[("/a.html", "one\nthree\n"), ("/c.html", "y")]);
        render_report(compare_sites(before, after))
    };
    assert_eq!(build(), build());
}

#[test]
fn report_strips_crlf_terminators_from_diff_lines() {
    let before = snapshot_of(&[("/w.html", "one\r\ntwo\r\n")]);
    let after = snapshot_of(&[("/w.html", "one\r\nthree\r\n")]);
    let report = render_report(compare_sites(before, after));
    assert!(report.contains("<span class=\"diff-line diff-remove\">-two\n</span>"));
    assert!(report.contains("<span class=\"diff-line diff-add\">+three\n</span>"));
    assert!(!report.contains("\r"));
}

#[test]
fn report_marks_blank_removed_lines_apart() {
    let before = snapshot_of(&[("/b.html", "a\n\nb\nc\n")]);
    let after = snapshot_of(&[("/b.html", "a\nb\n")]);
    let report = render_report(compare_sites(before, after));
    // One blank deletion (down-weighted) and one substantive deletion.
    assert!(report.contains("<span class=\"diff-line diff-blank-line\">~\n</span>"));
    assert!(report.contains("<span class=\"diff-line diff-remove\">-c\n</span>"));
    assert!(report.contains("Changed files (1)"));
}
