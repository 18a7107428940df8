//! The report renderer: builds the comparison report document — similarity
//! bar, the four path listings, and an anchored diff block per changed file —
//! and serializes it to a single self-contained HTML page.

use vstd::prelude::*;

use vstd::string::StrSliceExecFns;
use vstd::string::StringExecFns;

use crate::compare::{str_views, Comparison};
use crate::htmldoc::{
    append_u64, dec_str, el, render_document, render_element, void_el, with_attr, with_child,
    Element, Node, SpecElement, SpecNode,
};
use crate::linediff::{line_ops, ChangedFile, LineChange, LineOp, SpecChangedFile, is_blank,
    is_blank_line};
use crate::seqext::{lemma_map_values_push, lemma_take_push};
use crate::stats::{
    added_of, changed_of, changed_views, clamp_u64, partition_report, percent_similar_spec,
    reclassified_of, removed_of, sum_added, sum_removed, summarize,
};

verus! {

/// The anchor slug of a path, as `slug::slugify` computes it: a
/// deterministic function of the path alone.
pub uninterp spec fn slug_of(path: Seq<char>) -> Seq<char>;

/// A character that may occur in a slug.
pub open spec fn is_slug_char(c: char) -> bool {
    ('a' <= c && c <= 'z') || ('0' <= c && c <= '9') || c == '-'
}

/// Relies on `slug::slugify`: the slug of the path, made of `a-z`, `0-9` and
/// `-` alone, the same for the same path on every run.
#[verifier::external_body]
fn slug_path(path: &String) -> (r: String)
    ensures
        r@ == slug_of(path@),
        forall|i: int| 0 <= i < r@.len() ==> is_slug_char(#[trigger] r@[i]),
{
    slug::slugify(path)
}

/// A fresh element.
pub open spec fn s_el(tag: Seq<char>) -> SpecElement {
    SpecElement {
        tag,
        void: false,
        attrs: Seq::empty(),
        children: Seq::empty(),
    }
}

/// A fresh void element.
pub open spec fn s_void(tag: Seq<char>) -> SpecElement {
    SpecElement { tag, void: true, attrs: Seq::empty(), children: Seq::empty() }
}

/// The element with a text child appended.
pub open spec fn s_text(e: SpecElement, t: Seq<char>) -> SpecElement {
    with_child(e, SpecNode::Text(t))
}

/// The element with an element child appended.
pub open spec fn s_elem(e: SpecElement, c: SpecElement) -> SpecElement {
    with_child(e, SpecNode::Element(c))
}

/// The element with a class attribute appended.
pub open spec fn s_class(e: SpecElement, c: Seq<char>) -> SpecElement {
    with_attr(e, "class"@, c)
}

/// Appends a class attribute.
fn class(e: Element, c: &str) -> (r: Element)
    ensures
        r@ == s_class(e@, c@),
{
    e.attr("class", c.to_owned())
}

/// The stylesheet of the report page.
pub open spec fn style_text_spec() -> Seq<char> {
    "body{font-family:sans-serif}.lh-copy{line-height:1.5}.flex{display:flex}.items-center{align-items:center}.gap1{gap:.5rem}code{font-family:monospace}.progress-container{position:relative;background:#eee;height:1.5rem}.progress-bar{background:#4caf50;height:100%}.progress-text{position:absolute;top:.15rem;left:.5rem}.diff-indicator.diff-add{color:#22863a}.diff-indicator.diff-remove{color:#cb2431}.diff-line{display:block}.diff-line.diff-add{background:#e6ffed}.diff-line.diff-remove{background:#ffeef0}.diff-line.diff-blank-line{background:#f1f8ff}pre{background:#f6f8fa;padding:.5rem;overflow-x:auto}"@
}

/// The stylesheet, as text.
fn style_text() -> (r: &'static str)
    ensures
        r@ == style_text_spec(),
{
    "body{font-family:sans-serif}.lh-copy{line-height:1.5}.flex{display:flex}.items-center{align-items:center}.gap1{gap:.5rem}code{font-family:monospace}.progress-container{position:relative;background:#eee;height:1.5rem}.progress-bar{background:#4caf50;height:100%}.progress-text{position:absolute;top:.15rem;left:.5rem}.diff-indicator.diff-add{color:#22863a}.diff-indicator.diff-remove{color:#cb2431}.diff-line{display:block}.diff-line.diff-add{background:#e6ffed}.diff-line.diff-remove{background:#ffeef0}.diff-line.diff-blank-line{background:#f1f8ff}pre{background:#f6f8fa;padding:.5rem;overflow-x:auto}"
}

/// The head of the report page: charset and viewport declarations, the
/// title, and the stylesheet.
pub open spec fn spec_head() -> SpecElement {
    s_elem(
        s_elem(
            s_elem(
                s_elem(
                    s_elem(s_el("head"@), with_attr(s_void("meta"@), "charset"@, "utf-8"@)),
                    with_attr(
                        with_attr(s_void("meta"@), "http-equiv"@, "x-ua-compatible"@),
                        "content"@,
                        "ie=edge"@,
                    ),
                ),
                with_attr(
                    with_attr(s_void("meta"@), "name"@, "viewport"@),
                    "content"@,
                    "width=device-width, initial-scale=1.0, maximum-scale=1"@,
                ),
            ),
            s_text(s_el("title"@), "Site Comparison"@),
        ),
        s_text(s_el("style"@), style_text_spec()),
    )
}

/// Builds the head of the report page.
fn build_head() -> (e: Element)
    ensures
        e@ == spec_head(),
{
    el("head")
        .elem(void_el("meta").attr("charset", "utf-8".to_owned()))
        .elem(
            void_el("meta").attr("http-equiv", "x-ua-compatible".to_owned()).attr(
                "content",
                "ie=edge".to_owned(),
            ),
        )
        .elem(
            void_el("meta").attr("name", "viewport".to_owned()).attr(
                "content",
                "width=device-width, initial-scale=1.0, maximum-scale=1".to_owned(),
            ),
        )
        .elem(el("title").text("Site Comparison".to_owned()))
        .elem(el("style").text(style_text().to_owned()))
}

/// The similarity bar: a proportional bar and the percentage as text.
pub open spec fn spec_progress(percent: int) -> SpecElement {
    s_elem(
        s_elem(
            s_class(s_el("div"@), "progress-container"@),
            with_attr(
                s_class(s_el("div"@), "progress-bar"@),
                "style"@,
                "width: "@ + dec_str(percent) + "%"@,
            ),
        ),
        s_text(s_class(s_el("span"@), "progress-text"@), dec_str(percent) + "% Similar"@),
    )
}

/// Builds the similarity bar.
fn build_progress(percent: u32) -> (e: Element)
    ensures
        e@ == spec_progress(percent as int),
{
    let mut width = "width: ".to_owned();
    append_u64(&mut width, percent as u64);
    width.append("%");
    let mut label = String::new();
    append_u64(&mut label, percent as u64);
    label.append("% Similar");
    proof {
        assert(label@ =~= dec_str(percent as int) + "% Similar"@);
    }
    class(el("div"), "progress-container")
        .elem(class(el("div"), "progress-bar").attr("style", width))
        .elem(class(el("span"), "progress-text").text(label))
}

/// A list item showing one path.
pub open spec fn spec_path_item(p: Seq<char>) -> SpecNode {
    SpecNode::Element(
        s_elem(
            s_el("li"@),
            s_elem(s_class(s_el("div"@), "flex items-center gap1"@), s_text(s_el("code"@), p)),
        ),
    )
}

/// The list item of one path.
pub open spec fn mk_path_item() -> spec_fn(Seq<char>) -> SpecNode {
    |p: Seq<char>| spec_path_item(p)
}

/// Builds the list item of one path.
fn build_path_item(p: &String) -> (n: Node)
    ensures
        n@ == spec_path_item(p@),
{
    Node::Element(
        el("li").elem(
            class(el("div"), "flex items-center gap1").elem(el("code").text(p.clone())),
        ),
    )
}

/// A label followed by a count in parentheses.
pub open spec fn spec_count_label(label: Seq<char>, n: int) -> Seq<char> {
    label + " ("@ + dec_str(n) + ")"@
}

/// Builds a label followed by a count in parentheses.
fn build_count_label(label: &str, n: usize) -> (t: String)
    ensures
        t@ == spec_count_label(label@, n as int),
{
    let mut t = label.to_owned();
    t.append(" (");
    append_u64(&mut t, n as u64);
    t.append(")");
    t
}

/// A section listing paths: a heading with the count, then the paths as an
/// ordered list.
pub open spec fn spec_listing(label: Seq<char>, paths: Seq<Seq<char>>) -> SpecElement {
    s_elem(
        s_elem(
            s_el("div"@),
            s_text(s_el("h2"@), spec_count_label(label, paths.len() as int)),
        ),
        SpecElement { children: paths.map_values(mk_path_item()), ..s_el("ol"@) },
    )
}

/// Builds a section listing paths under a heading with their count.
fn build_listing(label: &str, paths: &Vec<String>) -> (e: Element)
    ensures
        e@ == spec_listing(label@, str_views(paths@)),
{
    let ghost pv = str_views(paths@);
    let mut list = el("ol");
    let n = paths.len();
    let mut i: usize = 0;
    proof {
        assert(pv.take(0).map_values(mk_path_item()) =~= Seq::<SpecNode>::empty());
    }
    while i < n
        invariant
            n == paths@.len(),
            pv == str_views(paths@),
            pv.len() == n,
            i <= n,
            list@ == (SpecElement {
                children: pv.take(i as int).map_values(mk_path_item()),
                ..s_el("ol"@)
            }),
        decreases n - i,
    {
        proof {
            lemma_take_push(pv, i as int);
            lemma_map_values_push(pv.take(i as int), pv[i as int], mk_path_item());
            assert(pv[i as int] == paths@[i as int]@);
        }
        let item = build_path_item(&paths[i]);
        list = list.child(item);
        i += 1;
    }
    proof {
        assert(pv.take(n as int) =~= pv);
    }
    el("div").elem(el("h2").text(build_count_label(label, n))).elem(list)
}

/// The indicator showing a count of added lines.
pub open spec fn spec_add_indicator(lines_added: int) -> SpecElement {
    s_text(s_class(s_el("span"@), "code diff-indicator diff-add"@), "+"@ + dec_str(lines_added))
}

/// Builds the indicator showing a count of added lines.
pub fn diff_add_indicator(lines_added: u64) -> (e: Element)
    ensures
        e@ == spec_add_indicator(lines_added as int),
{
    let mut t = "+".to_owned();
    append_u64(&mut t, lines_added);
    class(el("span"), "code diff-indicator diff-add").text(t)
}

/// The indicator showing a count of removed lines.
pub open spec fn spec_remove_indicator(lines_removed: int) -> SpecElement {
    s_text(
        s_class(s_el("span"@), "code diff-indicator diff-remove"@),
        "-"@ + dec_str(lines_removed),
    )
}

/// Builds the indicator showing a count of removed lines.
pub fn diff_remove_indicator(lines_removed: u64) -> (e: Element)
    ensures
        e@ == spec_remove_indicator(lines_removed as int),
{
    let mut t = "-".to_owned();
    append_u64(&mut t, lines_removed);
    class(el("span"), "code diff-indicator diff-remove").text(t)
}

/// The paired added/removed indicator.
pub open spec fn spec_indicator(lines_added: int, lines_removed: int) -> SpecElement {
    s_elem(
        s_elem(s_class(s_el("span"@), "flex gap1"@), spec_add_indicator(lines_added)),
        spec_remove_indicator(lines_removed),
    )
}

/// Builds the paired added/removed indicator.
pub fn diff_indicator(lines_added: u64, lines_removed: u64) -> (e: Element)
    ensures
        e@ == spec_indicator(lines_added as int, lines_removed as int),
{
    class(el("span"), "flex gap1").elem(diff_add_indicator(lines_added)).elem(
        diff_remove_indicator(lines_removed),
    )
}

/// The listing entry of one changed file: path, its indicator, and a link to
/// its diff block.
pub open spec fn spec_changed_item(cf: SpecChangedFile) -> SpecNode {
    SpecNode::Element(
        s_elem(
            s_el("li"@),
            s_elem(
                s_elem(
                    s_elem(
                        s_class(s_el("div"@), "flex items-center gap1"@),
                        s_text(s_el("code"@), cf.path),
                    ),
                    spec_indicator(cf.lines_added, cf.lines_removed),
                ),
                s_text(
                    s_elem(
                        s_text(s_el("span"@), "("@),
                        s_text(
                            with_attr(s_el("a"@), "href"@, "#diff-"@ + slug_of(cf.path)),
                            "diff"@,
                        ),
                    ),
                    ")"@,
                ),
            ),
        ),
    )
}

/// The listing entry of one changed file.
pub open spec fn mk_changed_item() -> spec_fn(SpecChangedFile) -> SpecNode {
    |cf: SpecChangedFile| spec_changed_item(cf)
}

/// Builds the listing entry of one changed file.
fn build_changed_item(cf: &ChangedFile) -> (n: Node)
    ensures
        n@ == spec_changed_item(cf@),
{
    let mut href = "#diff-".to_owned();
    href.append(slug_path(&cf.path).as_str());
    Node::Element(
        el("li").elem(
            class(el("div"), "flex items-center gap1")
                .elem(el("code").text(cf.path.clone()))
                .elem(diff_indicator(cf.lines_added as u64, cf.lines_removed as u64))
                .elem(
                    el("span")
                        .text("(".to_owned())
                        .elem(el("a").attr("href", href).text("diff".to_owned()))
                        .text(")".to_owned()),
                ),
        ),
    )
}

/// The section listing the changed files: heading with count, the total
/// indicator, and one entry per changed file.
pub open spec fn spec_changed_section(
    changed: Seq<SpecChangedFile>,
    total_added: int,
    total_removed: int,
) -> SpecElement {
    s_elem(
        s_elem(
            s_el("div"@),
            s_elem(
                s_elem(
                    s_class(s_el("div"@), "flex items-center gap1"@),
                    s_text(
                        s_el("h2"@),
                        spec_count_label("Changed files"@, changed.len() as int),
                    ),
                ),
                spec_indicator(total_added, total_removed),
            ),
        ),
        SpecElement { children: changed.map_values(mk_changed_item()), ..s_el("ol"@) },
    )
}

/// Builds the section listing the changed files.
fn build_changed_section(
    changed: &Vec<ChangedFile>,
    total_added: u64,
    total_removed: u64,
) -> (e: Element)
    ensures
        e@ == spec_changed_section(
            changed_views(changed@),
            total_added as int,
            total_removed as int,
        ),
{
    let ghost cv = changed_views(changed@);
    let mut list = el("ol");
    let n = changed.len();
    let mut i: usize = 0;
    proof {
        assert(cv.take(0).map_values(mk_changed_item()) =~= Seq::<SpecNode>::empty());
    }
    while i < n
        invariant
            n == changed@.len(),
            cv == changed_views(changed@),
            cv.len() == n,
            i <= n,
            list@ == (SpecElement {
                children: cv.take(i as int).map_values(mk_changed_item()),
                ..s_el("ol"@)
            }),
        decreases n - i,
    {
        proof {
            lemma_take_push(cv, i as int);
            lemma_map_values_push(cv.take(i as int), cv[i as int], mk_changed_item());
            assert(cv[i as int] == changed@[i as int]@);
        }
        let item = build_changed_item(&changed[i]);
        list = list.child(item);
        i += 1;
    }
    proof {
        assert(cv.take(n as int) =~= cv);
    }
    el("div")
        .elem(
            class(el("div"), "flex items-center gap1")
                .elem(el("h2").text(build_count_label("Changed files", n)))
                .elem(diff_indicator(total_added, total_removed)),
        )
        .elem(list)
}

/// One rendered diff line: the directional sign, the line text, and a line
/// break; styled by kind, with blank removed lines set apart from
/// substantive ones.
pub open spec fn spec_line(op: LineOp) -> SpecNode {
    match op {
        LineOp::Insert(t) => SpecNode::Element(
            s_text(s_class(s_el("span"@), "diff-line diff-add"@), "+"@ + t + "\n"@),
        ),
        LineOp::Delete(t) => if is_blank(t) {
            SpecNode::Element(
                s_text(s_class(s_el("span"@), "diff-line diff-blank-line"@), "~"@ + t + "\n"@),
            )
        } else {
            SpecNode::Element(
                s_text(s_class(s_el("span"@), "diff-line diff-remove"@), "-"@ + t + "\n"@),
            )
        },
        LineOp::Equal(t) => SpecNode::Element(s_text(s_el("span"@), " "@ + t + "\n"@)),
    }
}

/// One rendered diff line.
pub open spec fn mk_line() -> spec_fn(LineOp) -> SpecNode {
    |op: LineOp| spec_line(op)
}

/// Builds one rendered diff line.
fn build_line(ln: &LineChange) -> (n: Node)
    ensures
        n@ == spec_line(ln@),
{
    match ln {
        LineChange::Insert(t) => {
            let mut s = "+".to_owned();
            s.append(t.as_str());
            s.append("\n");
            Node::Element(class(el("span"), "diff-line diff-add").text(s))
        },
        LineChange::Delete(t) => {
            if is_blank_line(t.as_str()) {
                let mut s = "~".to_owned();
                s.append(t.as_str());
                s.append("\n");
                Node::Element(class(el("span"), "diff-line diff-blank-line").text(s))
            } else {
                let mut s = "-".to_owned();
                s.append(t.as_str());
                s.append("\n");
                Node::Element(class(el("span"), "diff-line diff-remove").text(s))
            }
        },
        LineChange::Equal(t) => {
            let mut s = " ".to_owned();
            s.append(t.as_str());
            s.append("\n");
            Node::Element(el("span").text(s))
        },
    }
}

/// The anchored diff block of one changed file: path and indicator, then the
/// full line sequence.
pub open spec fn spec_diff_block(cf: SpecChangedFile) -> SpecNode {
    SpecNode::Element(
        s_elem(
            s_elem(
                with_attr(s_el("div"@), "id"@, "diff-"@ + slug_of(cf.path)),
                s_elem(
                    s_elem(
                        s_class(s_el("div"@), "flex items-center gap1"@),
                        s_text(s_el("code"@), cf.path),
                    ),
                    spec_indicator(cf.lines_added, cf.lines_removed),
                ),
            ),
            s_elem(
                s_el("pre"@),
                SpecElement { children: cf.lines.map_values(mk_line()), ..s_el("code"@) },
            ),
        ),
    )
}

/// The anchored diff block of one changed file.
pub open spec fn mk_diff_block() -> spec_fn(SpecChangedFile) -> SpecNode {
    |cf: SpecChangedFile| spec_diff_block(cf)
}

/// Builds the anchored diff block of one changed file.
fn build_diff_block(cf: &ChangedFile) -> (n: Node)
    ensures
        n@ == spec_diff_block(cf@),
{
    let mut anchor = "diff-".to_owned();
    anchor.append(slug_path(&cf.path).as_str());

    let ghost lv = line_ops(cf.lines@);
    let mut code_el = el("code");
    let n = cf.lines.len();
    let mut i: usize = 0;
    proof {
        assert(lv.take(0).map_values(mk_line()) =~= Seq::<SpecNode>::empty());
    }
    while i < n
        invariant
            n == cf.lines@.len(),
            lv == line_ops(cf.lines@),
            lv.len() == n,
            i <= n,
            code_el@ == (SpecElement {
                children: lv.take(i as int).map_values(mk_line()),
                ..s_el("code"@)
            }),
        decreases n - i,
    {
        proof {
            lemma_take_push(lv, i as int);
            lemma_map_values_push(lv.take(i as int), lv[i as int], mk_line());
            assert(lv[i as int] == cf.lines@[i as int]@);
        }
        let item = build_line(&cf.lines[i]);
        code_el = code_el.child(item);
        i += 1;
    }
    proof {
        assert(lv.take(n as int) =~= lv);
        assert(lv == cf@.lines);
    }
    Node::Element(
        el("div")
            .attr("id", anchor)
            .elem(
                class(el("div"), "flex items-center gap1")
                    .elem(el("code").text(cf.path.clone()))
                    .elem(diff_indicator(cf.lines_added as u64, cf.lines_removed as u64)),
            )
            .elem(el("pre").elem(code_el)),
    )
}

/// The diffs section: a heading, then the diff block of every changed file.
pub open spec fn spec_diffs_section(changed: Seq<SpecChangedFile>) -> SpecElement {
    SpecElement {
        children: seq![
            SpecNode::Element(s_text(s_el("h2"@), "Diffs"@)),
        ] + changed.map_values(mk_diff_block()),
        ..s_el("div"@)
    }
}

/// Builds the diffs section.
fn build_diffs_section(changed: &Vec<ChangedFile>) -> (e: Element)
    ensures
        e@ == spec_diffs_section(changed_views(changed@)),
{
    let ghost cv = changed_views(changed@);
    let ghost head: Seq<SpecNode> = seq![SpecNode::Element(s_text(s_el("h2"@), "Diffs"@))];
    let mut e = el("div").elem(el("h2").text("Diffs".to_owned()));
    proof {
        assert(e@.children =~= head + cv.take(0).map_values(mk_diff_block()));
    }
    let n = changed.len();
    let mut i: usize = 0;
    while i < n
        invariant
            n == changed@.len(),
            cv == changed_views(changed@),
            cv.len() == n,
            i <= n,
            e@ == (SpecElement {
                children: head + cv.take(i as int).map_values(mk_diff_block()),
                ..s_el("div"@)
            }),
        decreases n - i,
    {
        proof {
            lemma_take_push(cv, i as int);
            lemma_map_values_push(cv.take(i as int), cv[i as int], mk_diff_block());
            assert(cv[i as int] == changed@[i as int]@);
        }
        let block = build_diff_block(&changed[i]);
        e = e.child(block);
        proof {
            assert(e@.children =~= head + cv.take(i as int + 1).map_values(mk_diff_block()));
        }
        i += 1;
    }
    proof {
        assert(cv.take(n as int) =~= cv);
    }
    e
}

/// The whole report document.
pub open spec fn spec_report_doc(
    identical: Seq<Seq<char>>,
    added: Seq<Seq<char>>,
    removed: Seq<Seq<char>>,
    changed: Seq<SpecChangedFile>,
    total_added: int,
    total_removed: int,
    percent: int,
) -> SpecElement {
    s_elem(
        s_elem(with_attr(s_el("html"@), "lang"@, "en"@), spec_head()),
        s_elem(
            s_elem(
                s_elem(
                    s_elem(
                        s_elem(
                            s_elem(
                                s_elem(
                                    s_class(s_el("body"@), "sans-serif lh-copy"@),
                                    s_text(s_el("h1"@), "Comparison Report"@),
                                ),
                                spec_progress(percent),
                            ),
                            spec_listing("Identical files"@, identical),
                        ),
                        spec_listing("Added files"@, added),
                    ),
                    spec_listing("Removed files"@, removed),
                ),
                spec_changed_section(changed, total_added, total_removed),
            ),
            spec_diffs_section(changed),
        ),
    )
}

/// The report document of a comparison.
pub open spec fn report_doc_of(c: Comparison) -> SpecElement {
    let d = c.spec_differences();
    let identical = c.spec_identical() + reclassified_of(d);
    let added = added_of(d);
    let removed = removed_of(d);
    let changed = changed_of(d);
    spec_report_doc(
        identical,
        added,
        removed,
        changed,
        clamp_u64(sum_added(changed)),
        clamp_u64(sum_removed(changed)),
        percent_similar_spec(
            identical.len(),
            identical.len() + added.len() + removed.len() + changed.len(),
        ) as int,
    )
}

/// The full text of the report of a comparison.
pub open spec fn report_text_of(c: Comparison) -> Seq<char> {
    "<!DOCTYPE html>"@ + render_element(report_doc_of(c))
}

/// Renders the comparison report: diffs every changed pair, reclassifies
/// whitespace-only changes as identical, derives the totals and the
/// similarity percentage, and serializes the document. Total: rendering
/// never fails.
pub fn render_report(comparison: Comparison) -> (r: String)
    ensures
        r@ == report_text_of(comparison),
{
    let ghost c = comparison;
    let rd = partition_report(comparison);
    let summary = summarize(&rd);
    let body = class(el("body"), "sans-serif lh-copy")
        .elem(el("h1").text("Comparison Report".to_owned()))
        .elem(build_progress(summary.percent_similar))
        .elem(build_listing("Identical files", &rd.identical))
        .elem(build_listing("Added files", &rd.added))
        .elem(build_listing("Removed files", &rd.removed))
        .elem(build_changed_section(&rd.changed, rd.total_lines_added, rd.total_lines_removed))
        .elem(build_diffs_section(&rd.changed));
    let doc = el("html").attr("lang", "en".to_owned()).elem(build_head()).elem(body);
    proof {
        assert(doc@ == report_doc_of(c));
    }
    render_document(&doc)
}

} // verus!
