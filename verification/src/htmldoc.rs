//! A small HTML document model: an element tree, and a verified renderer
//! that serializes it with all text and attribute values escaped.

use vstd::prelude::*;

use vstd::string::StrSliceExecFns;
use vstd::string::StringExecFns;

verus! {

/// One HTML element: a tag, its attributes in order, and its children in
/// order. A void element (such as `meta`) renders without a closing tag and
/// ignores its children.
pub struct Element {
    pub tag: String,
    pub void: bool,
    pub attrs: Vec<(String, String)>,
    pub children: Vec<Node>,
}

/// One node of the document: an element or a run of text. Text is stored
/// unescaped; the renderer escapes it.
pub enum Node {
    Element(Element),
    Text(String),
}

/// The mathematical value of an [`Element`].
pub struct SpecElement {
    pub tag: Seq<char>,
    pub void: bool,
    pub attrs: Seq<(Seq<char>, Seq<char>)>,
    pub children: Seq<SpecNode>,
}

/// The mathematical value of a [`Node`].
pub enum SpecNode {
    Element(SpecElement),
    Text(Seq<char>),
}

/// The view of a node.
pub open spec fn node_view(n: Node) -> SpecNode
    decreases n,
{
    match n {
        Node::Element(e) => SpecNode::Element(element_view(e)),
        Node::Text(t) => SpecNode::Text(t@),
    }
}

/// The views of a sequence of nodes.
pub open spec fn nodes_view(s: Seq<Node>) -> Seq<SpecNode>
    decreases s,
{
    if s.len() == 0 {
        Seq::empty()
    } else {
        nodes_view(s.drop_last()).push(node_view(s.last()))
    }
}

/// The views of a sequence of attributes.
pub open spec fn attr_views(s: Seq<(String, String)>) -> Seq<(Seq<char>, Seq<char>)> {
    s.map_values(|a: (String, String)| (a.0@, a.1@))
}

/// The view of an element.
pub open spec fn element_view(e: Element) -> SpecElement
    decreases e,
{
    SpecElement {
        tag: e.tag@,
        void: e.void,
        attrs: attr_views(e.attrs@),
        children: nodes_view(e.children@),
    }
}

impl View for Node {
    type V = SpecNode;

    open spec fn view(&self) -> SpecNode {
        node_view(*self)
    }
}

impl View for Element {
    type V = SpecElement;

    open spec fn view(&self) -> SpecElement {
        element_view(*self)
    }
}

/// The node views, element by element.
pub proof fn lemma_nodes_view(s: Seq<Node>)
    ensures
        nodes_view(s).len() == s.len(),
        forall|i: int| 0 <= i < s.len() ==> nodes_view(s)[i] == node_view(s[i]),
    decreases s.len(),
{
    if s.len() > 0 {
        lemma_nodes_view(s.drop_last());
    }
}

/// Node views distribute over push.
pub proof fn lemma_nodes_view_push(s: Seq<Node>, x: Node)
    ensures
        nodes_view(s.push(x)) == nodes_view(s).push(node_view(x)),
{
    assert(s.push(x).drop_last() =~= s);
    assert(s.push(x).last() == x);
}

/// An element with the given tag and no attributes or children yet.
pub fn el(tag: &str) -> (e: Element)
    ensures
        e@ == (SpecElement {
            tag: tag@,
            void: false,
            attrs: Seq::<(Seq<char>, Seq<char>)>::empty(),
            children: Seq::<SpecNode>::empty(),
        }),
{
    let e = Element { tag: tag.to_owned(), void: false, attrs: Vec::new(), children: Vec::new() };
    proof {
        assert(attr_views(e.attrs@) =~= Seq::<(Seq<char>, Seq<char>)>::empty());
    }
    e
}

/// A void element with the given tag: it renders without a closing tag.
pub fn void_el(tag: &str) -> (e: Element)
    ensures
        e@ == (SpecElement {
            tag: tag@,
            void: true,
            attrs: Seq::<(Seq<char>, Seq<char>)>::empty(),
            children: Seq::<SpecNode>::empty(),
        }),
{
    let e = Element { tag: tag.to_owned(), void: true, attrs: Vec::new(), children: Vec::new() };
    proof {
        assert(attr_views(e.attrs@) =~= Seq::<(Seq<char>, Seq<char>)>::empty());
    }
    e
}

/// The element with one more attribute.
pub open spec fn with_attr(e: SpecElement, name: Seq<char>, value: Seq<char>) -> SpecElement {
    SpecElement { attrs: e.attrs.push((name, value)), ..e }
}

/// The element with one more child.
pub open spec fn with_child(e: SpecElement, n: SpecNode) -> SpecElement {
    SpecElement { children: e.children.push(n), ..e }
}

impl Element {
    /// Appends an attribute.
    pub fn attr(self, name: &str, value: String) -> (r: Element)
        ensures
            r@ == with_attr(self@, name@, value@),
    {
        let ghost a0 = self.attrs@;
        let mut e = self;
        e.attrs.push((name.to_owned(), value));
        proof {
            let x = e.attrs@.last();
            assert(e.attrs@ == a0.push(x));
            assert(attr_views(e.attrs@) =~= attr_views(a0).push((x.0@, x.1@)));
        }
        e
    }

    /// Appends a child node.
    pub fn child(self, n: Node) -> (r: Element)
        ensures
            r@ == with_child(self@, n@),
    {
        let ghost c0 = self.children@;
        let ghost nv = n@;
        let mut e = self;
        e.children.push(n);
        proof {
            assert(e.children@ == c0.push(e.children@.last()));
            lemma_nodes_view_push(c0, e.children@.last());
        }
        e
    }

    /// Appends a text child.
    pub fn text(self, t: String) -> (r: Element)
        ensures
            r@ == with_child(self@, SpecNode::Text(t@)),
    {
        self.child(Node::Text(t))
    }

    /// Appends an element child.
    pub fn elem(self, e: Element) -> (r: Element)
        ensures
            r@ == with_child(self@, SpecNode::Element(e@)),
    {
        self.child(Node::Element(e))
    }
}

/// An escaped character: the four HTML-special characters become entities,
/// every other character stands as itself.
pub open spec fn escape_char(c: char) -> Seq<char> {
    if c == '&' {
        seq!['&', 'a', 'm', 'p', ';']
    } else if c == '<' {
        seq!['&', 'l', 't', ';']
    } else if c == '>' {
        seq!['&', 'g', 't', ';']
    } else if c == '"' {
        seq!['&', 'q', 'u', 'o', 't', ';']
    } else {
        seq![c]
    }
}

/// A text with every character escaped.
pub open spec fn escape_text(s: Seq<char>) -> Seq<char>
    decreases s.len(),
{
    if s.len() == 0 {
        Seq::empty()
    } else {
        escape_text(s.drop_last()) + escape_char(s.last())
    }
}

/// Relies on `String::push`: appends exactly the one character.
#[verifier::external_body]
fn push_char(out: &mut String, c: char)
    ensures
        final(out)@ == old(out)@.push(c),
{
    out.push(c);
}

/// Appends the text with the four HTML-special characters escaped.
pub fn append_escaped(out: &mut String, text: &str)
    ensures
        final(out)@ == old(out)@ + escape_text(text@),
{
    let n = text.unicode_len();
    let mut i: usize = 0;
    proof {
        assert(text@.take(0) =~= Seq::<char>::empty());
        assert(out@ =~= old(out)@ + escape_text(text@.take(0)));
    }
    while i < n
        invariant
            n == text@.len(),
            i <= n,
            out@ == old(out)@ + escape_text(text@.take(i as int)),
        decreases n - i,
    {
        let ghost pre = out@;
        let c = text.get_char(i);
        if c == '&' {
            out.append("&amp;");
            proof {
                reveal_strlit("&amp;");
                assert("&amp;"@ =~= escape_char(c));
            }
        } else if c == '<' {
            out.append("&lt;");
            proof {
                reveal_strlit("&lt;");
                assert("&lt;"@ =~= escape_char(c));
            }
        } else if c == '>' {
            out.append("&gt;");
            proof {
                reveal_strlit("&gt;");
                assert("&gt;"@ =~= escape_char(c));
            }
        } else if c == '"' {
            out.append("&quot;");
            proof {
                reveal_strlit("&quot;");
                assert("&quot;"@ =~= escape_char(c));
            }
        } else {
            push_char(out, c);
            proof {
                assert(out@ =~= pre + escape_char(c));
            }
        }
        proof {
            assert(text@.take(i as int + 1).drop_last() =~= text@.take(i as int));
            assert(text@.take(i as int + 1).last() == c);
            assert(escape_text(text@.take(i as int + 1)) == escape_text(text@.take(i as int))
                + escape_char(c));
            assert(out@ =~= old(out)@ + escape_text(text@.take(i as int + 1)));
        }
        i += 1;
    }
    proof {
        assert(text@.take(n as int) =~= text@);
    }
}

/// The decimal digit as a character.
pub open spec fn dec_digit(d: int) -> char {
    if d == 0 {
        '0'
    } else if d == 1 {
        '1'
    } else if d == 2 {
        '2'
    } else if d == 3 {
        '3'
    } else if d == 4 {
        '4'
    } else if d == 5 {
        '5'
    } else if d == 6 {
        '6'
    } else if d == 7 {
        '7'
    } else if d == 8 {
        '8'
    } else {
        '9'
    }
}

/// The usual decimal writing of a nonnegative number, most significant digit
/// first, with no leading zeros.
pub open spec fn dec_str(n: int) -> Seq<char>
    recommends
        n >= 0,
    decreases n,
{
    if n < 10 {
        seq![dec_digit(n)]
    } else {
        dec_str(n / 10).push(dec_digit(n % 10))
    }
}

/// Appends the decimal writing of `n`.
pub fn append_u64(out: &mut String, n: u64)
    ensures
        final(out)@ == old(out)@ + dec_str(n as int),
    decreases n,
{
    let q = n / 10;
    let r = n % 10;
    if n >= 10 {
        append_u64(out, q);
    }
    let c: char = if r == 0 {
        '0'
    } else if r == 1 {
        '1'
    } else if r == 2 {
        '2'
    } else if r == 3 {
        '3'
    } else if r == 4 {
        '4'
    } else if r == 5 {
        '5'
    } else if r == 6 {
        '6'
    } else if r == 7 {
        '7'
    } else if r == 8 {
        '8'
    } else {
        '9'
    };
    proof {
        assert(c == dec_digit(n as int % 10));
    }
    push_char(out, c);
    proof {
        if n >= 10 {
            assert(out@ =~= old(out)@ + dec_str(n as int));
        } else {
            assert(dec_str(n as int) =~= seq![dec_digit(n as int)]);
            assert(out@ =~= old(out)@ + dec_str(n as int));
        }
    }
}

/// One rendered attribute: a space, the name, and — unless the value is
/// empty — `="` the escaped value `"`.
pub open spec fn render_attr(a: (Seq<char>, Seq<char>)) -> Seq<char> {
    if a.1.len() == 0 {
        seq![' '] + a.0
    } else {
        seq![' '] + a.0 + seq!['=', '"'] + escape_text(a.1) + seq!['"']
    }
}

/// All attributes rendered in order.
pub open spec fn render_attrs(attrs: Seq<(Seq<char>, Seq<char>)>) -> Seq<char>
    decreases attrs.len(),
{
    if attrs.len() == 0 {
        Seq::empty()
    } else {
        render_attrs(attrs.drop_last()) + render_attr(attrs.last())
    }
}

/// One rendered node: an element, or escaped text.
pub open spec fn render_node(n: SpecNode) -> Seq<char>
    decreases n,
{
    match n {
        SpecNode::Element(e) => render_element(e),
        SpecNode::Text(t) => escape_text(t),
    }
}

/// All children rendered in order.
pub open spec fn render_nodes(s: Seq<SpecNode>) -> Seq<char>
    decreases s,
{
    if s.len() == 0 {
        Seq::empty()
    } else {
        render_nodes(s.drop_last()) + render_node(s.last())
    }
}

/// One rendered element: the open tag with its attributes; then, unless the
/// element is void, its children and the closing tag.
pub open spec fn render_element(e: SpecElement) -> Seq<char>
    decreases e,
{
    seq!['<'] + e.tag + render_attrs(e.attrs) + seq!['>'] + if e.void {
        Seq::<char>::empty()
    } else {
        render_nodes(e.children) + seq!['<', '/'] + e.tag + seq!['>']
    }
}

/// Appends the rendering of one node.
pub fn render_node_into(n: &Node, out: &mut String)
    ensures
        final(out)@ == old(out)@ + render_node(n@),
    decreases n,
{
    match n {
        Node::Text(t) => {
            append_escaped(out, t.as_str());
        },
        Node::Element(e) => {
            render_element_into(e, out);
        },
    }
}

/// Appends the rendering of one element.
pub fn render_element_into(e: &Element, out: &mut String)
    ensures
        final(out)@ == old(out)@ + render_element(e@),
    decreases e,
{
    push_char(out, '<');
    out.append(e.tag.as_str());

    let ghost av = attr_views(e.attrs@);
    let na = e.attrs.len();
    let mut i: usize = 0;
    proof {
        assert(av.take(0) =~= Seq::<(Seq<char>, Seq<char>)>::empty());
        assert(out@ =~= old(out)@ + seq!['<'] + e.tag@ + render_attrs(av.take(0)));
    }
    while i < na
        invariant
            na == e.attrs@.len(),
            av == attr_views(e.attrs@),
            i <= na,
            out@ == old(out)@ + seq!['<'] + e.tag@ + render_attrs(av.take(i as int)),
        decreases na - i,
    {
        let ghost pre = out@;
        let a = &e.attrs[i];
        push_char(out, ' ');
        out.append(a.0.as_str());
        if !a.1.as_str().is_empty() {
            out.append("=\"");
            append_escaped(out, a.1.as_str());
            out.append("\"");
            proof {
                reveal_strlit("=\"");
                reveal_strlit("\"");
                assert(out@ =~= pre + render_attr(av[i as int]));
            }
        } else {
            proof {
                assert(out@ =~= pre + render_attr(av[i as int]));
            }
        }
        proof {
            assert(av.take(i as int + 1).drop_last() =~= av.take(i as int));
            assert(av.take(i as int + 1).last() == av[i as int]);
            assert(out@ =~= old(out)@ + seq!['<'] + e.tag@ + render_attrs(av.take(i as int + 1)));
        }
        i += 1;
    }
    proof {
        assert(av.take(na as int) =~= av);
    }
    push_char(out, '>');

    if e.void {
        proof {
            assert(out@ =~= old(out)@ + render_element(e@));
        }
        return ;
    }

    let ghost open_part = old(out)@ + seq!['<'] + e.tag@ + render_attrs(av) + seq!['>'];
    let ghost cv = nodes_view(e.children@);
    let nc = e.children.len();
    let mut j: usize = 0;
    proof {
        lemma_nodes_view(e.children@);
        assert(render_nodes(cv.take(0)) =~= Seq::<char>::empty());
        assert(out@ =~= open_part + render_nodes(cv.take(0)));
    }
    while j < nc
        invariant
            nc == e.children@.len(),
            cv == nodes_view(e.children@),
            cv.len() == nc,
            forall|k: int| 0 <= k < nc ==> cv[k] == node_view(e.children@[k]),
            j <= nc,
            out@ == open_part + render_nodes(cv.take(j as int)),
        decreases nc - j,
    {
        let ghost pre = out@;
        let child = &e.children[j];
        proof {
            assert(node_view(*child) == cv[j as int]);
        }
        render_node_into(child, out);
        proof {
            assert(cv.take(j as int + 1).drop_last() =~= cv.take(j as int));
            assert(cv.take(j as int + 1).last() == cv[j as int]);
            assert(out@ =~= open_part + render_nodes(cv.take(j as int + 1)));
        }
        j += 1;
    }
    proof {
        assert(cv.take(nc as int) =~= cv);
    }
    out.append("</");
    out.append(e.tag.as_str());
    out.append(">");
    proof {
        reveal_strlit("</");
        reveal_strlit(">");
        assert(out@ =~= old(out)@ + render_element(e@));
    }
}

/// Renders a document: the doctype declaration, then the root element.
pub fn render_document(root: &Element) -> (r: String)
    ensures
        r@ == "<!DOCTYPE html>"@ + render_element(root@),
{
    let mut out = "<!DOCTYPE html>".to_owned();
    render_element_into(root, &mut out);
    out
}

} // verus!
