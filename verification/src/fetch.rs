//! Extraction of notices from a notice-list page.
//!
//! The page is parsed and queried by `scraper`; each selected element comes
//! back as the sequence of open/close events of a depth-first walk of its
//! subtree, and everything else (rebuilding the tree, collecting text and
//! links, reading the caption) is done here.
use vstd::prelude::*;
use crate::text::{trim, trim_str, join_seq, join_strings, views_of, split_once_spec, split_once_char};
use crate::entity::{Category, NoticeSent, built_from, opt_view};
use crate::dates::Date;
use scraper::{ElementRef, Html, Selector};
use ego_tree::iter::Edge;

verus! {

/// One event of a depth-first walk of a page's nodes.
pub enum HtmlToken {
    /// Entering a node: its text if it is a text node; its (local) tag name
    /// and its `href` attribute if it is an element; neither for other nodes
    /// (comments, doctypes and the like).
    Open(Option<String>, Option<(String, Option<String>)>),
    /// Leaving the node entered last.
    Close,
}

/// One notice box: the walks of its caption and of its content element.
pub struct ScrapedBox {
    pub caption: Option<Vec<HtmlToken>>,
    pub content: Option<Vec<HtmlToken>>,
}

/// What a node holds, apart from its children.
pub enum NodeInfo {
    Text(Seq<char>),
    Element { name: Seq<char>, href: Option<Seq<char>> },
    Other,
}

/// [`HtmlToken`] as values.
pub enum Tok {
    Open(NodeInfo),
    Close,
}

/// A node of the page with its children, in document order.
pub struct DomNode {
    pub info: NodeInfo,
    pub children: Seq<DomNode>,
}

impl View for HtmlToken {
    type V = Tok;

    open spec fn view(&self) -> Tok {
        match self {
            HtmlToken::Open(Some(t), _) => Tok::Open(NodeInfo::Text(t@)),
            HtmlToken::Open(None, Some((name, href))) => Tok::Open(NodeInfo::Element {
                name: name@,
                href: match href { Some(h) => Some(h@), None => None },
            }),
            HtmlToken::Open(None, None) => Tok::Open(NodeInfo::Other),
            HtmlToken::Close => Tok::Close,
        }
    }
}

/// Optional walks as values.
pub open spec fn walks_of(v: Seq<Option<Vec<HtmlToken>>>) -> Seq<Option<Seq<Tok>>> {
    v.map_values(|w: Option<Vec<HtmlToken>>| match w { Some(t) => Some(toks_of(t@)), None => None })
}

/// The walk as values.
pub open spec fn toks_of(v: Seq<HtmlToken>) -> Seq<Tok> {
    v.map_values(|t: HtmlToken| t@)
}

/// A box as values.
pub open spec fn box_view(b: ScrapedBox) -> (Option<Seq<Tok>>, Option<Seq<Tok>>) {
    (
        match b.caption { Some(v) => Some(toks_of(v@)), None => None },
        match b.content { Some(v) => Some(toks_of(v@)), None => None },
    )
}

// ---------------------------------------------------------------------------
// Reading a walk back as a tree.

/// The nodes that start at position `i` of a walk and follow each other until
/// a close event (or the end): the nodes and the position after them.
pub open spec fn parse_forest(t: Seq<Tok>, i: int) -> Option<(Seq<DomNode>, int)>
    decreases t.len() - i, 1int,
{
    if i < 0 || i >= t.len() || t[i] is Close {
        Some((seq![], i))
    } else {
        match parse_node(t, i) {
            None => None,
            Some((n, j)) => if j <= i || j > t.len() {
                None
            } else {
                match parse_forest(t, j) {
                    None => None,
                    Some((rest, k)) => Some((seq![n] + rest, k)),
                }
            },
        }
    }
}

/// The node whose open event is at position `i` of a walk, and the position
/// after its close event.
pub open spec fn parse_node(t: Seq<Tok>, i: int) -> Option<(DomNode, int)>
    decreases t.len() - i, 0int,
{
    if 0 <= i < t.len() && t[i] is Open {
        match parse_forest(t, i + 1) {
            Some((cs, j)) => if 0 <= j < t.len() && t[j] is Close {
                Some((DomNode { info: t[i]->Open_0, children: cs }, j + 1))
            } else {
                None
            },
            None => None,
        }
    } else {
        None
    }
}

/// The walk of one element: it reads back as a single element node.
pub open spec fn is_element_walk(t: Seq<Tok>) -> bool {
    &&& parse_node(t, 0) matches Some((n, j))
    &&& j == t.len()
    &&& n.info is Element
}

/// The element that a walk describes.
pub open spec fn tree_of(t: Seq<Tok>) -> DomNode {
    parse_node(t, 0)->Some_0.0
}

/// The walk of a node: open, the walks of the children, close.
pub open spec fn node_walk(n: DomNode) -> Seq<Tok>
    decreases n,
{
    seq![Tok::Open(n.info)] + forest_walk(n.children) + seq![Tok::Close]
}

/// The walks of nodes one after another.
pub open spec fn forest_walk(f: Seq<DomNode>) -> Seq<Tok>
    decreases f,
{
    if f.len() == 0 {
        seq![]
    } else {
        forest_walk(f.drop_last()) + node_walk(f.last())
    }
}

proof fn lemma_forest_walk_front(f: Seq<DomNode>)
    requires
        f.len() > 0,
    ensures
        forest_walk(f) == node_walk(f[0]) + forest_walk(f.subrange(1, f.len() as int)),
    decreases f.len(),
{
    if f.len() == 1 {
        assert(f.drop_last() =~= Seq::<DomNode>::empty());
        assert(f.subrange(1, 1) =~= Seq::<DomNode>::empty());
        assert(forest_walk(f.drop_last()) =~= Seq::<Tok>::empty());
        assert(forest_walk(f.subrange(1, 1)) =~= Seq::<Tok>::empty());
        assert(node_walk(f[0]) + Seq::<Tok>::empty() =~= node_walk(f[0]));
    } else {
        let d = f.drop_last();
        lemma_forest_walk_front(d);
        assert(d[0] == f[0]);
        assert(d.subrange(1, d.len() as int) =~= f.subrange(1, f.len() as int).drop_last());
        assert(f.subrange(1, f.len() as int).last() == f.last());
        assert(forest_walk(f.subrange(1, f.len() as int))
            == forest_walk(f.subrange(1, f.len() as int).drop_last()) + node_walk(f.last()));
        assert(forest_walk(f) =~= node_walk(f[0]) + forest_walk(f.subrange(1, f.len() as int)));
    }
}

proof fn lemma_parse_node_walk(n: DomNode, t: Seq<Tok>, i: int)
    requires
        0 <= i,
        i + node_walk(n).len() <= t.len(),
        t.subrange(i, i + node_walk(n).len()) == node_walk(n),
    ensures
        parse_node(t, i) == Some((n, i + node_walk(n).len())),
    decreases n,
{
    let w = node_walk(n);
    let cw = forest_walk(n.children);
    assert(w == seq![Tok::Open(n.info)] + cw + seq![Tok::Close]);
    assert(t[i] == w[0]);
    let j = i + 1 + cw.len();
    assert(t[j] == w[1 + cw.len() as int]);
    assert(t.subrange(i + 1, j) =~= cw) by {
        assert forall|k: int| 0 <= k < cw.len() implies t.subrange(i + 1, j)[k] == cw[k] by {
            assert(t[i + 1 + k] == w[1 + k]);
        }
    }
    lemma_parse_forest_walk(n.children, t, i + 1);
    assert(parse_node(t, i) == Some((DomNode { info: n.info, children: n.children }, j + 1)));
}

proof fn lemma_parse_forest_walk(f: Seq<DomNode>, t: Seq<Tok>, i: int)
    requires
        0 <= i,
        i + forest_walk(f).len() <= t.len(),
        t.subrange(i, i + forest_walk(f).len()) == forest_walk(f),
        i + forest_walk(f).len() == t.len() || t[i + forest_walk(f).len()] is Close,
    ensures
        parse_forest(t, i) == Some((f, i + forest_walk(f).len())),
    decreases f,
{
    if f.len() == 0 {
        assert(forest_walk(f) =~= Seq::<Tok>::empty());
        assert(f =~= Seq::<DomNode>::empty());
    } else {
        lemma_forest_walk_front(f);
        let n = f[0];
        let rest = f.subrange(1, f.len() as int);
        let nw = node_walk(n);
        let rw = forest_walk(rest);
        let j = i + nw.len();
        assert(forest_walk(f) == nw + rw);
        assert(t.subrange(i, j) =~= nw) by {
            assert forall|k: int| 0 <= k < nw.len() implies t.subrange(i, j)[k] == nw[k] by {
                assert(t[i + k] == forest_walk(f)[k]);
            }
        }
        assert(t.subrange(j, j + rw.len()) =~= rw) by {
            assert forall|k: int| 0 <= k < rw.len() implies t.subrange(j, j + rw.len())[k] == rw[k] by {
                assert(t[j + k] == forest_walk(f)[nw.len() + k]);
            }
        }
        assert(nw[0] == Tok::Open(n.info));
        assert(t[i] == nw[0]);
        lemma_parse_node_walk(n, t, i);
        lemma_parse_forest_walk(rest, t, j);
        assert(seq![n] + rest =~= f);
    }
}

/// Reading back the walk of a node gives that node: the events that
/// `scraper` reports determine the subtree they were taken from.
pub proof fn lemma_walk_roundtrip(n: DomNode)
    ensures
        parse_node(node_walk(n), 0) == Some((n, node_walk(n).len() as int)),
        tree_of(node_walk(n)) == n,
        n.info is Element ==> is_element_walk(node_walk(n)),
{
    let w = node_walk(n);
    assert(w.subrange(0, w.len() as int) =~= w);
    lemma_parse_node_walk(n, w, 0);
}

// ---------------------------------------------------------------------------
// Text and links.

/// The text nodes of a subtree, in document order (what `ElementRef::text`
/// yields).
pub open spec fn node_texts(n: DomNode) -> Seq<Seq<char>>
    decreases n,
{
    (match n.info { NodeInfo::Text(t) => seq![t], _ => seq![] }) + forest_texts(n.children)
}

/// The text nodes of consecutive subtrees, in document order.
pub open spec fn forest_texts(f: Seq<DomNode>) -> Seq<Seq<char>>
    decreases f,
{
    if f.len() == 0 {
        seq![]
    } else {
        forest_texts(f.drop_last()) + node_texts(f.last())
    }
}

/// The markup written for a link: `<a href="HREF">TEXT</a>`.
pub open spec fn link_markup(href: Seq<char>, text: Seq<char>) -> Seq<char> {
    "<a href=\""@ + href + "\">"@ + text + "</a>"@
}

/// What a child node adds to its parent's text: text as it is; a link
/// (`a` with an `href`) as markup around its trimmed space-joined text; an
/// `a` without `href` nothing; another element its own collected text; any
/// other node nothing.
pub open spec fn node_piece(n: DomNode) -> Seq<char>
    decreases n,
{
    match n.info {
        NodeInfo::Text(t) => t,
        NodeInfo::Element { name, href } => if name == "a"@ {
            match href {
                Some(h) => link_markup(h, trim(join_seq(forest_texts(n.children), " "@))),
                None => seq![],
            }
        } else {
            trim(forest_pieces(n.children))
        },
        NodeInfo::Other => seq![],
    }
}

/// The pieces of consecutive child nodes, concatenated.
pub open spec fn forest_pieces(f: Seq<DomNode>) -> Seq<char>
    decreases f,
{
    if f.len() == 0 {
        seq![]
    } else {
        forest_pieces(f.drop_last()) + node_piece(f.last())
    }
}

/// An element's text with its links kept as `<a>` markup, trimmed.
pub open spec fn text_with_links(n: DomNode) -> Seq<char> {
    trim(forest_pieces(n.children))
}

/// An element's text nodes joined by single spaces, trimmed.
pub open spec fn plain_text(n: DomNode) -> Seq<char> {
    trim(join_seq(node_texts(n), " "@))
}


// ---------------------------------------------------------------------------
// Reading a walk.

fn is_open(t: &HtmlToken) -> (r: bool)
    ensures
        r == (t@ is Open),
{
    match t {
        HtmlToken::Open(..) => true,
        HtmlToken::Close => false,
    }
}

proof fn lemma_views_append(a: Seq<String>, b: Seq<String>)
    ensures
        views_of(a + b) == views_of(a) + views_of(b),
{
    assert(views_of(a + b) =~= views_of(a) + views_of(b));
}

/// The text nodes of the node opening at `i`, and the position after it.
fn texts_node(t: &Vec<HtmlToken>, i: usize) -> (r: (Vec<String>, usize))
    requires
        parse_node(toks_of(t@), i as int) is Some,
    ensures
        parse_node(toks_of(t@), i as int) matches Some((n, j)) && r.1 == j && views_of(r.0@) == node_texts(n),
    decreases t@.len() - i, 0int,
{
    let ghost tv = toks_of(t@);
    let _n = t.len();
    assert(tv.len() == t@.len());
    assert(i < t@.len());
    assert(tv[i as int] == t@[i as int]@);
    assert(parse_forest(tv, i + 1) matches Some((_, j)) && j < t@.len());
    let mut out: Vec<String> = Vec::new();
    match &t[i] {
        HtmlToken::Open(Some(s), _) => out.push(s.clone()),
        _ => {},
    }
    let (mut rest, j) = texts_forest(t, i + 1);
    proof {
        lemma_views_append(out@, rest@);
        let n = parse_node(tv, i as int)->Some_0.0;
        assert(views_of(out@) =~= (match n.info { NodeInfo::Text(x) => seq![x], _ => Seq::<Seq<char>>::empty() }));
    }
    out.append(&mut rest);
    (out, j + 1)
}

/// The text nodes of the nodes that follow each other from `i`, and the
/// position after them.
fn texts_forest(t: &Vec<HtmlToken>, i: usize) -> (r: (Vec<String>, usize))
    requires
        i <= t@.len(),
        parse_forest(toks_of(t@), i as int) is Some,
    ensures
        parse_forest(toks_of(t@), i as int) matches Some((f, j)) && r.1 == j && views_of(r.0@) == forest_texts(f),
    decreases t@.len() - i, 1int,
{
    let ghost tv = toks_of(t@);
    let mut out: Vec<String> = Vec::new();
    let mut pos: usize = i;
    let ghost mut done: Seq<DomNode> = seq![];
    assert(views_of(out@) =~= forest_texts(done));
    assert(parse_forest(tv, i as int)->Some_0.0 =~= done + parse_forest(tv, pos as int)->Some_0.0);
    while pos < t.len() && is_open(&t[pos])
        invariant
            i <= pos <= t@.len(),
            tv == toks_of(t@),
            parse_forest(tv, pos as int) is Some,
            parse_forest(tv, i as int) is Some,
            parse_forest(tv, i as int)->Some_0.0 == done + parse_forest(tv, pos as int)->Some_0.0,
            parse_forest(tv, i as int)->Some_0.1 == parse_forest(tv, pos as int)->Some_0.1,
            views_of(out@) == forest_texts(done),
        decreases t@.len() - pos,
    {
        assert(tv[pos as int] == t@[pos as int]@);
        let (mut piece, next) = texts_node(t, pos);
        proof {
            let n = parse_node(tv, pos as int)->Some_0.0;
            let g = parse_forest(tv, next as int)->Some_0.0;
            assert(parse_forest(tv, pos as int)->Some_0.0 == seq![n] + g);
            assert(done + (seq![n] + g) =~= done.push(n) + g);
            assert(done.push(n).drop_last() =~= done);
            lemma_views_append(out@, piece@);
            done = done.push(n);
        }
        out.append(&mut piece);
        pos = next;
    }
    proof {
        if pos < t.len() {
            assert(tv[pos as int] == t@[pos as int]@);
        }
        assert(done + Seq::<DomNode>::empty() =~= done);
    }
    (out, pos)
}

/// The concatenated pieces of the node opening at `i`, and the position after it.
fn pieces_node(t: &Vec<HtmlToken>, i: usize) -> (r: (String, usize))
    requires
        parse_node(toks_of(t@), i as int) is Some,
    ensures
        parse_node(toks_of(t@), i as int) matches Some((n, j)) && r.1 == j && r.0@ == node_piece(n),
    decreases t@.len() - i, 0int,
{
    let ghost tv = toks_of(t@);
    let _n = t.len();
    assert(tv.len() == t@.len());
    assert(i < t@.len());
    assert(tv[i as int] == t@[i as int]@);
    assert(parse_forest(tv, i + 1) matches Some((_, j)) && j < t@.len());
    proof {
        reveal_strlit("a");
        reveal_strlit(" ");
    }
    match &t[i] {
        HtmlToken::Open(Some(s), _) => {
            let (_, j) = texts_forest(t, i + 1);
            (s.clone(), j + 1)
        },
        HtmlToken::Open(None, Some((name, href))) => {
            if crate::text::str_eq(name.as_str(), "a") {
                let (ts, j) = texts_forest(t, i + 1);
                match href {
                    Some(h) => {
                        let joined = join_strings(&ts, " ");
                        let text = trim_str(joined.as_str());
                        let mut r = crate::text::concat3("<a href=\"", h.as_str(), "\">");
                        r.append(text.as_str());
                        r.append("</a>");
                        proof {
                            reveal_strlit("<a href=\"");
                            reveal_strlit("\">");
                            reveal_strlit("</a>");
                        }
                        (r, j + 1)
                    },
                    None => (String::new(), j + 1),
                }
            } else {
                let (p, j) = pieces_forest(t, i + 1);
                (trim_str(p.as_str()), j + 1)
            }
        },
        HtmlToken::Open(None, None) => {
            let (_, j) = texts_forest(t, i + 1);
            (String::new(), j + 1)
        },
        HtmlToken::Close => {
            proof { assert(false); }
            (String::new(), i)
        },
    }
}

/// The concatenated pieces of the nodes that follow each other from `i`, and
/// the position after them.
fn pieces_forest(t: &Vec<HtmlToken>, i: usize) -> (r: (String, usize))
    requires
        i <= t@.len(),
        parse_forest(toks_of(t@), i as int) is Some,
    ensures
        parse_forest(toks_of(t@), i as int) matches Some((f, j)) && r.1 == j && r.0@ == forest_pieces(f),
    decreases t@.len() - i, 1int,
{
    let ghost tv = toks_of(t@);
    let mut out = String::new();
    let mut pos: usize = i;
    let ghost mut done: Seq<DomNode> = seq![];
    assert(parse_forest(tv, i as int)->Some_0.0 =~= done + parse_forest(tv, pos as int)->Some_0.0);
    while pos < t.len() && is_open(&t[pos])
        invariant
            i <= pos <= t@.len(),
            tv == toks_of(t@),
            parse_forest(tv, pos as int) is Some,
            parse_forest(tv, i as int) is Some,
            parse_forest(tv, i as int)->Some_0.0 == done + parse_forest(tv, pos as int)->Some_0.0,
            parse_forest(tv, i as int)->Some_0.1 == parse_forest(tv, pos as int)->Some_0.1,
            out@ == forest_pieces(done),
        decreases t@.len() - pos,
    {
        assert(tv[pos as int] == t@[pos as int]@);
        let (piece, next) = pieces_node(t, pos);
        proof {
            let n = parse_node(tv, pos as int)->Some_0.0;
            let g = parse_forest(tv, next as int)->Some_0.0;
            assert(parse_forest(tv, pos as int)->Some_0.0 == seq![n] + g);
            assert(done + (seq![n] + g) =~= done.push(n) + g);
            assert(done.push(n).drop_last() =~= done);
            done = done.push(n);
        }
        out.append(piece.as_str());
        pos = next;
    }
    proof {
        if pos < t.len() {
            assert(tv[pos as int] == t@[pos as int]@);
        }
        assert(done + Seq::<DomNode>::empty() =~= done);
    }
    (out, pos)
}

/// The text of the element walked by `t`, with its links kept as `<a>`
/// markup, trimmed.
pub fn collect_text_with_links(t: &Vec<HtmlToken>) -> (r: String)
    requires
        is_element_walk(toks_of(t@)),
    ensures
        r@ == text_with_links(tree_of(toks_of(t@))),
{
    let (p, _) = pieces_forest(t, 1);
    trim_str(p.as_str())
}

/// The text nodes of the element walked by `t`, joined by single spaces and
/// trimmed.
pub fn element_text(t: &Vec<HtmlToken>) -> (r: String)
    requires
        is_element_walk(toks_of(t@)),
    ensures
        r@ == plain_text(tree_of(toks_of(t@))),
{
    let (ts, _) = texts_node(t, 0);
    proof { reveal_strlit(" "); }
    let joined = join_strings(&ts, " ");
    trim_str(joined.as_str())
}


// ---------------------------------------------------------------------------
// Notices of a page.

/// What `scraper` reports for a page: for each element matching `outer`
/// (in the order `Html::select` yields them), the walk of its first
/// descendant matching `inner`; `None` when a selector does not parse.
pub uninterp spec fn scraped_walks(html: Seq<char>, outer: Seq<char>, inner: Seq<char>) -> Option<Seq<Option<Seq<Tok>>>>;

/// Each walk present is the walk of one element.
pub open spec fn walks_ok(w: Seq<Option<Seq<Tok>>>) -> bool {
    forall|k: int| 0 <= k < w.len() ==> (#[trigger] w[k] matches Some(t) ==> is_element_walk(t))
}

/// Parses `html` with `scraper::Html::parse_document` and the selectors with
/// `scraper::Selector::parse`; for every element that `Html::select` matches
/// with `outer`, records the depth-first walk (`ego_tree` `traverse`) of its
/// first descendant matching `inner` (`ElementRef::select(..).next()`), each
/// event turned into an [`HtmlToken`].
///
/// The result is named by [`scraped_walks`]. Also stated: each walk starts
/// at an element and opens and closes every node of its subtree in order,
/// as `Traverse` does; and the simple class selectors of a notice page
/// (`div.tbBox`, `div.tbBoxCaption`, `div.tbBoxContent`) parse, so for them
/// the result is present (`Html::parse_document` itself never fails).
#[verifier::external_body]
fn select_walks(html: &str, outer: &str, inner: &str) -> (r: Option<Vec<Option<Vec<HtmlToken>>>>)
    ensures
        scraped_walks(html@, outer@, inner@) == (match r {
            Some(v) => Some(walks_of(v@)),
            None => None,
        }),
        r matches Some(v) ==> walks_ok(walks_of(v@)),
        outer@ == "div.tbBox"@ && (inner@ == "div.tbBoxCaption"@ || inner@ == "div.tbBoxContent"@) ==> r is Some,
{
    let doc = Html::parse_document(html);
    let (o, i) = (Selector::parse(outer).ok()?, Selector::parse(inner).ok()?);
    Some(doc.select(&o).map(|x| x.select(&i).next().map(|e| e.traverse().map(|g| match g {
        Edge::Close(_) => HtmlToken::Close,
        Edge::Open(n) => HtmlToken::Open(n.value().as_text().map(|x| x.to_string()), n.value().as_element().map(|x| (x.name().into(), x.attr("href").map(Into::into)))),
    }).collect())).collect())
}

/// Each walk of a box is the walk of one element.
pub open spec fn box_walks_ok(b: (Option<Seq<Tok>>, Option<Seq<Tok>>)) -> bool {
    &&& b.0 matches Some(t) ==> is_element_walk(t)
    &&& b.1 matches Some(t) ==> is_element_walk(t)
}

/// The caption text of a box: its text nodes joined by spaces and trimmed
/// (empty without a caption).
pub open spec fn caption_of(b: (Option<Seq<Tok>>, Option<Seq<Tok>>)) -> Seq<char> {
    match b.0 {
        Some(t) => plain_text(tree_of(t)),
        None => seq![],
    }
}

/// The content text of a box, links kept as markup (empty without content).
pub open spec fn content_of(b: (Option<Seq<Tok>>, Option<Seq<Tok>>)) -> Seq<char> {
    match b.1 {
        Some(t) => text_with_links(tree_of(t)),
        None => seq![],
    }
}

/// The date text of a caption `DATE: TITLE` (trimmed), if it has a colon.
pub open spec fn date_part(caption: Seq<char>) -> Option<Seq<char>> {
    match split_once_spec(caption, ':') {
        Some((d, _)) => Some(trim(d)),
        None => None,
    }
}

/// The title of a caption: after the first colon (trimmed), or the whole caption.
pub open spec fn title_part(caption: Seq<char>) -> Seq<char> {
    match split_once_spec(caption, ':') {
        Some((_, t)) => trim(t),
        None => caption,
    }
}

/// The body of a notice: its content text, absent when empty.
pub open spec fn body_part(content: Seq<char>) -> Option<Seq<char>> {
    if content.len() == 0 {
        None
    } else {
        Some(content)
    }
}

/// A caption is split at its first colon: when the first `:` of `caption`
/// is at position `i`, the date text is `caption[..i]` trimmed (so it holds
/// no colon) and the title is `caption[i+1..]` trimmed, later colons staying
/// in the title; a caption without a colon has no date text and is the
/// whole title.
pub proof fn lemma_caption_split_at_first_colon(caption: Seq<char>, i: int)
    requires
        (0 <= i < caption.len() && caption[i] == ':' && forall|k: int| 0 <= k < i ==> caption[k] != ':')
            || (i == -1 && forall|k: int| 0 <= k < caption.len() ==> caption[k] != ':'),
    ensures
        i >= 0 ==> date_part(caption) == Some(trim(caption.subrange(0, i))),
        i >= 0 ==> title_part(caption) == trim(caption.subrange(i + 1, caption.len() as int)),
        i >= 0 ==> forall|k: int| 0 <= k < i ==> caption.subrange(0, i)[k] != ':',
        i == -1 ==> date_part(caption) is None && title_part(caption) == caption,
{
    crate::text::lemma_split_once_first(caption, ':', i);
}

/// What a box's notice carries of its caption: with the caption's first
/// colon at `i`, the notice's title is the trimmed text after that colon,
/// and its date is read from the trimmed text before it.
pub proof fn lemma_notice_title_after_first_colon(n: NoticeSent, b: (Option<Seq<Tok>>, Option<Seq<Tok>>), category: Category, i: int)
    requires
        notice_of_box(n, b, category),
        0 <= i < caption_of(b).len(),
        caption_of(b)[i] == ':',
        forall|k: int| 0 <= k < i ==> caption_of(b)[k] != ':',
    ensures
        n.title@ == trim(caption_of(b).subrange(i + 1, caption_of(b).len() as int)),
        crate::entity::opt_date_view(n.published_date)
            == crate::entity::published_date_of(Some(trim(caption_of(b).subrange(0, i)))),
        n.main_category == category,
{
    lemma_caption_split_at_first_colon(caption_of(b), i);
}

/// `n` is the notice that the box `b` describes, in `category`.
pub open spec fn notice_of_box(n: NoticeSent, b: (Option<Seq<Tok>>, Option<Seq<Tok>>), category: Category) -> bool {
    built_from(n, date_part(caption_of(b)), title_part(caption_of(b)), body_part(content_of(b)), category)
}

/// The date text, title and body that a box describes.
pub fn box_fields(b: &ScrapedBox) -> (r: (Option<String>, String, Option<String>))
    requires
        box_walks_ok(box_view(*b)),
    ensures
        opt_view(r.0) == date_part(caption_of(box_view(*b))),
        r.1@ == title_part(caption_of(box_view(*b))),
        opt_view(r.2) == body_part(content_of(box_view(*b))),
{
    let caption = match &b.caption {
        Some(t) => element_text(t),
        None => String::new(),
    };
    let content = match &b.content {
        Some(t) => collect_text_with_links(t),
        None => String::new(),
    };
    let (date, title) = match split_once_char(caption.as_str(), ':') {
        Some((d, t)) => (Some(trim_str(d.as_str())), trim_str(t.as_str())),
        None => (None, caption),
    };
    let body = if content.unicode_len() == 0 { None } else { Some(content) };
    (date, title, body)
}

/// The notices that the boxes describe, one per box, in order; each is
/// stamped with the time it is built.
pub fn notices_from_boxes(boxes: &Vec<ScrapedBox>, category: Category) -> (r: Vec<NoticeSent>)
    requires
        forall|k: int| 0 <= k < boxes@.len() ==> box_walks_ok(#[trigger] box_view(boxes@[k])),
    ensures
        r@.len() == boxes@.len(),
        forall|k: int| 0 <= k < r@.len() ==> notice_of_box(#[trigger] r@[k], box_view(boxes@[k]), category),
{
    let mut r: Vec<NoticeSent> = Vec::new();
    let mut k: usize = 0;
    while k < boxes.len()
        invariant
            k <= boxes@.len(),
            r@.len() == k,
            forall|m: int| 0 <= m < boxes@.len() ==> box_walks_ok(#[trigger] box_view(boxes@[m])),
            forall|m: int| 0 <= m < k ==> notice_of_box(#[trigger] r@[m], box_view(boxes@[m]), category),
        decreases boxes@.len() - k,
    {
        assert(box_walks_ok(box_view(boxes@[k as int])));
        let (date, title, body) = box_fields(&boxes[k]);
        let n = NoticeSent::new(date, title, body, category);
        r.push(n);
        k = k + 1;
    }
    r
}

/// Why a page yielded no notices.
#[derive(Clone, Copy, Debug, PartialEq, Eq, Structural)]
pub enum ExtractError {
    /// One of the selectors did not parse.
    InvalidSelector,
}

/// Selector of a notice box.
pub open spec fn box_selector() -> Seq<char> { "div.tbBox"@ }
/// Selector of a notice caption (`DATE: TITLE`).
pub open spec fn caption_selector() -> Seq<char> { "div.tbBoxCaption"@ }
/// Selector of a notice body.
pub open spec fn content_selector() -> Seq<char> { "div.tbBoxContent"@ }

/// The boxes of a page: the caption walks paired by position with the
/// content walks, both selected within the same box elements (a caption
/// without a content walk at its position has no content).
pub open spec fn pair_walks(caps: Seq<Option<Seq<Tok>>>, cons: Seq<Option<Seq<Tok>>>) -> Seq<(Option<Seq<Tok>>, Option<Seq<Tok>>)> {
    Seq::new(caps.len(), |k: int| (caps[k], if k < cons.len() { cons[k] } else { None }))
}

/// Pairs caption walks with content walks (see [`pair_walks`]).
fn pair_boxes(caps: Vec<Option<Vec<HtmlToken>>>, cons: Vec<Option<Vec<HtmlToken>>>) -> (r: Vec<ScrapedBox>)
    ensures
        r@.len() == caps@.len(),
        forall|k: int| 0 <= k < r@.len() ==> box_view(#[trigger] r@[k]) == pair_walks(walks_of(caps@), walks_of(cons@))[k],
{
    let ghost c0 = caps@;
    let ghost t0 = cons@;
    let n0 = caps.len();
    let mut caps = caps;
    let mut cons = cons;
    let mut r: Vec<ScrapedBox> = Vec::new();
    let mut k: usize = 0;
    while caps.len() > 0
        invariant
            k + caps@.len() == c0.len(),
            c0.len() == n0,
            caps@ == c0.skip(k as int),
            k <= t0.len() ==> cons@ == t0.skip(k as int),
            k > t0.len() ==> cons@.len() == 0,
            cons@.len() == 0 ==> k >= t0.len(),
            r@.len() == k,
            forall|m: int| 0 <= m < k ==> box_view(#[trigger] r@[m]) == pair_walks(walks_of(c0), walks_of(t0))[m],
        decreases caps@.len(),
    {
        let caption = caps.remove(0);
        let content = if cons.len() > 0 { cons.remove(0) } else { None };
        let ghost b = ScrapedBox { caption, content };
        proof {
            assert(c0.skip(k + 1) =~= c0.skip(k as int).remove(0));
            assert(caption == c0[k as int]);
            if k < t0.len() {
                assert(t0.skip(k + 1) =~= t0.skip(k as int).remove(0));
                assert(content == t0[k as int]);
            }
            assert(walks_of(c0)[k as int] == (match c0[k as int] { Some(t) => Some(toks_of(t@)), None => None }));
        }
        r.push(ScrapedBox { caption, content });
        k = k + 1;
    }
    r
}

/// The notices of a notice-list page, one per `div.tbBox`, in `category`.
/// Every page yields its notices: the selectors are fixed and parse.
pub fn analysis_notice(html: &str, category: Category) -> (r: Result<Vec<NoticeSent>, ExtractError>)
    ensures
        r is Ok,
        scraped_walks(html@, box_selector(), caption_selector()) is Some,
        scraped_walks(html@, box_selector(), content_selector()) is Some,
        match (
            scraped_walks(html@, box_selector(), caption_selector()),
            scraped_walks(html@, box_selector(), content_selector()),
        ) {
            (Some(caps), Some(cons)) => r matches Ok(v) && v@.len() == caps.len()
                && forall|k: int| 0 <= k < v@.len() ==> notice_of_box(#[trigger] v@[k], pair_walks(caps, cons)[k], category),
            _ => r == Err::<Vec<NoticeSent>, ExtractError>(ExtractError::InvalidSelector),
        },
{
    let caps = match select_walks(html, "div.tbBox", "div.tbBoxCaption") {
        Some(w) => w,
        None => return Err(ExtractError::InvalidSelector),
    };
    let cons = match select_walks(html, "div.tbBox", "div.tbBoxContent") {
        Some(w) => w,
        None => return Err(ExtractError::InvalidSelector),
    };
    let ghost cw = walks_of(caps@);
    let ghost tw = walks_of(cons@);
    let boxes = pair_boxes(caps, cons);
    proof {
        assert forall|k: int| 0 <= k < boxes@.len() implies box_walks_ok(#[trigger] box_view(boxes@[k])) by {
            assert(box_view(boxes@[k]) == pair_walks(cw, tw)[k]);
            assert(cw[k] matches Some(t) ==> is_element_walk(t));
            if k < tw.len() {
                assert(tw[k] matches Some(t) ==> is_element_walk(t));
            }
        }
    }
    let v = notices_from_boxes(&boxes, category);
    assert forall|k: int| 0 <= k < v@.len() implies notice_of_box(#[trigger] v@[k], pair_walks(cw, tw)[k], category) by {
        assert(box_view(boxes@[k]) == pair_walks(cw, tw)[k]);
    }
    Ok(v)
}

/// Seconds to wait before fetching a page again after a failed attempt.
pub const FETCH_RETRY_SECS: u64 = 10;

/// What to do after an attempt to fetch a notice page.
#[derive(Clone, Debug)]
pub enum FetchStep {
    /// The page was read: these are its notices.
    Done(Vec<NoticeSent>),
    /// The attempt failed: wait `wait_secs` seconds and fetch again.
    Retry { wait_secs: u64 },
}

/// The step after an attempt to fetch a page of `category`: `page` is the
/// body that was read, or `None` when the request or the read failed. A
/// page read yields its notices (see [`analysis_notice`]); a failed attempt
/// is retried after [`FETCH_RETRY_SECS`] seconds.
pub fn after_fetch_attempt(page: Option<&str>, category: Category) -> (r: FetchStep)
    ensures
        page is None ==> r == (FetchStep::Retry { wait_secs: FETCH_RETRY_SECS }),
        page is Some ==> r is Done,
        page matches Some(h) ==> match (
            scraped_walks(h@, box_selector(), caption_selector()),
            scraped_walks(h@, box_selector(), content_selector()),
        ) {
            (Some(caps), Some(cons)) => r matches FetchStep::Done(v) && v@.len() == caps.len()
                && forall|k: int| 0 <= k < v@.len() ==> notice_of_box(#[trigger] v@[k], pair_walks(caps, cons)[k], category),
            _ => r == (FetchStep::Retry { wait_secs: FETCH_RETRY_SECS }),
        },
{
    match page {
        None => FetchStep::Retry { wait_secs: FETCH_RETRY_SECS },
        Some(h) => match analysis_notice(h, category) {
            Ok(v) => FetchStep::Done(v),
            Err(_) => FetchStep::Retry { wait_secs: FETCH_RETRY_SECS },
        },
    }
}

// ---------------------------------------------------------------------------
// Order of the fetched notices.

/// The order of publication dates (as `Option<NaiveDate>` orders them):
/// no date first, then dates by year, month and day.
pub open spec fn date_le(a: Option<Date>, b: Option<Date>) -> bool {
    match (a, b) {
        (None, _) => true,
        (Some(_), None) => false,
        (Some(x), Some(y)) => x@.0 < y@.0 || (x@.0 == y@.0 && (x@.1 < y@.1 || (x@.1 == y@.1 && x@.2 <= y@.2))),
    }
}

/// Compares two publication dates (see [`date_le`]).
pub fn published_le(a: &Option<Date>, b: &Option<Date>) -> (r: bool)
    ensures
        r == date_le(*a, *b),
{
    match (a, b) {
        (None, _) => true,
        (Some(_), None) => false,
        (Some(x), Some(y)) => {
            x.year() < y.year() || (x.year() == y.year() && (x.month() < y.month() || (x.month() == y.month() && x.day() <= y.day())))
        },
    }
}

/// `x` placed into `s` after every notice whose date is not later than its own
/// (and before the later ones at the end).
pub open spec fn insert_by_date(s: Seq<NoticeSent>, x: NoticeSent) -> Seq<NoticeSent>
    decreases s.len(),
{
    if s.len() == 0 {
        seq![x]
    } else if date_le(s.last().published_date, x.published_date) {
        s.push(x)
    } else {
        insert_by_date(s.drop_last(), x).push(s.last())
    }
}

/// The notices stably sorted by publication date (each inserted in turn
/// after the notices not later than it).
pub open spec fn sort_by_date(s: Seq<NoticeSent>) -> Seq<NoticeSent>
    decreases s.len(),
{
    if s.len() == 0 {
        seq![]
    } else {
        insert_by_date(sort_by_date(s.drop_last()), s.last())
    }
}

/// Every notice's date is not later than the dates of the notices after it.
pub open spec fn sorted_by_date(s: Seq<NoticeSent>) -> bool {
    forall|i: int, j: int| 0 <= i < j < s.len() ==> date_le(#[trigger] s[i].published_date, #[trigger] s[j].published_date)
}

proof fn lemma_insert_at(s: Seq<NoticeSent>, x: NoticeSent, j: int)
    requires
        0 <= j <= s.len(),
        forall|k: int| j <= k < s.len() ==> !date_le(#[trigger] s[k].published_date, x.published_date),
        j > 0 ==> date_le(s[j - 1].published_date, x.published_date),
    ensures
        insert_by_date(s, x) == s.insert(j, x),
    decreases s.len(),
{
    if s.len() == 0 {
        assert(s.insert(j, x) =~= seq![x]);
    } else if j == s.len() {
        assert(s.insert(j, x) =~= s.push(x));
    } else {
        assert(!date_le(s.last().published_date, x.published_date));
        lemma_insert_at(s.drop_last(), x, j);
        assert(s.drop_last().insert(j, x).push(s.last()) =~= s.insert(j, x));
    }
}

/// Inserts `x` into `out` by date (see [`insert_by_date`]).
fn insert_notice_by_date(out: &mut Vec<NoticeSent>, x: NoticeSent)
    ensures
        final(out)@ == insert_by_date(old(out)@, x),
{
    let mut j = out.len();
    while j > 0 && !published_le(&out[j - 1].published_date, &x.published_date)
        invariant
            j <= out@.len(),
            forall|k: int| j <= k < out@.len() ==> !date_le(#[trigger] out@[k].published_date, x.published_date),
        decreases j,
    {
        j = j - 1;
    }
    proof { lemma_insert_at(out@, x, j as int); }
    out.insert(j, x);
}

/// The notices stably sorted by publication date, notices without a date
/// first (as `sort_by` on the `Option<NaiveDate>` does).
pub fn sort_notices_by_date(v: Vec<NoticeSent>) -> (r: Vec<NoticeSent>)
    ensures
        r@ == sort_by_date(v@),
{
    let ghost orig = v@;
    let n = v.len();
    let mut rest = v;
    let mut out: Vec<NoticeSent> = Vec::new();
    let mut k: usize = 0;
    assert(orig.skip(0) =~= orig);
    assert(orig.take(0) =~= Seq::<NoticeSent>::empty());
    while rest.len() > 0
        invariant
            k + rest@.len() == orig.len(),
            orig.len() == n,
            rest@ == orig.skip(k as int),
            out@ == sort_by_date(orig.take(k as int)),
        decreases rest@.len(),
    {
        let x = rest.remove(0);
        proof {
            assert(orig.take(k + 1).drop_last() =~= orig.take(k as int));
            assert(orig.take(k + 1).last() == x);
            assert(orig.skip(k + 1) =~= orig.skip(k as int).remove(0));
        }
        insert_notice_by_date(&mut out, x);
        k = k + 1;
    }
    assert(orig.take(k as int) =~= orig);
    out
}

proof fn lemma_insert_sorted(s: Seq<NoticeSent>, x: NoticeSent)
    requires
        sorted_by_date(s),
    ensures
        sorted_by_date(insert_by_date(s, x)),
        insert_by_date(s, x).len() == s.len() + 1,
        insert_by_date(s, x).last() == x || (s.len() > 0 && insert_by_date(s, x).last() == s.last()),
        insert_by_date(s, x).to_multiset() == s.to_multiset().insert(x),
    decreases s.len(),
{
    broadcast use vstd::seq_lib::group_to_multiset_ensures;
    if s.len() == 0 {
        assert(seq![x] =~= Seq::<NoticeSent>::empty().push(x));
    } else if date_le(s.last().published_date, x.published_date) {
        let r = s.push(x);
        assert forall|i: int, j: int| 0 <= i < j < r.len() implies date_le(#[trigger] r[i].published_date, #[trigger] r[j].published_date) by {
            if j == s.len() {
                if i < s.len() - 1 {
                    assert(date_le(s[i].published_date, s[s.len() - 1].published_date));
                }
            } else {
                assert(r[i] == s[i] && r[j] == s[j]);
            }
        }
    } else {
        let d = s.drop_last();
        assert(sorted_by_date(d)) by {
            assert forall|i: int, j: int| 0 <= i < j < d.len() implies date_le(#[trigger] d[i].published_date, #[trigger] d[j].published_date) by {
                assert(d[i] == s[i] && d[j] == s[j]);
            }
        }
        lemma_insert_sorted(d, x);
        let m = insert_by_date(d, x);
        let r = m.push(s.last());
        assert forall|i: int, j: int| 0 <= i < j < r.len() implies date_le(#[trigger] r[i].published_date, #[trigger] r[j].published_date) by {
            if j == m.len() {
                assert(r[j] == s.last());
                if i < m.len() - 1 {
                    assert(date_le(m[i].published_date, m[m.len() - 1].published_date));
                }
                if m.last() != x {
                    assert(m.last() == d.last());
                    assert(date_le(s[d.len() - 1].published_date, s[s.len() - 1].published_date));
                }
            } else {
                assert(r[i] == m[i] && r[j] == m[j]);
            }
        }
        assert(s =~= d.push(s.last()));
        assert(r.to_multiset() =~= s.to_multiset().insert(x));
    }
}

/// The notices of `s` published on `d`, in their order in `s`.
pub open spec fn dated(s: Seq<NoticeSent>, d: Option<Date>) -> Seq<NoticeSent>
    decreases s.len(),
{
    if s.len() == 0 {
        seq![]
    } else if s.last().published_date == d {
        dated(s.drop_last(), d).push(s.last())
    } else {
        dated(s.drop_last(), d)
    }
}

proof fn lemma_insert_dated(t: Seq<NoticeSent>, x: NoticeSent, d: Option<Date>)
    ensures
        dated(insert_by_date(t, x), d) == (if x.published_date == d { dated(t, d).push(x) } else { dated(t, d) }),
    decreases t.len(),
{
    if t.len() == 0 {
        assert(seq![x].drop_last() =~= t);
    } else if date_le(t.last().published_date, x.published_date) {
        assert(t.push(x).drop_last() =~= t);
    } else {
        lemma_insert_dated(t.drop_last(), x, d);
        let m = insert_by_date(t.drop_last(), x);
        assert(m.push(t.last()).drop_last() =~= m);
        assert(t.last().published_date != x.published_date);
    }
}

/// Sorting by date yields notices in date order, and the same notices; it
/// is stable: the notices of each date keep the order they had.
pub proof fn lemma_sort_by_date(s: Seq<NoticeSent>)
    ensures
        sorted_by_date(sort_by_date(s)),
        sort_by_date(s).to_multiset() == s.to_multiset(),
        forall|d: Option<Date>| #[trigger] dated(sort_by_date(s), d) == dated(s, d),
    decreases s.len(),
{
    broadcast use vstd::seq_lib::group_to_multiset_ensures;
    if s.len() > 0 {
        lemma_sort_by_date(s.drop_last());
        lemma_insert_sorted(sort_by_date(s.drop_last()), s.last());
        assert forall|d: Option<Date>| #[trigger] dated(sort_by_date(s), d) == dated(s, d) by {
            lemma_insert_dated(sort_by_date(s.drop_last()), s.last(), d);
        }
        assert(s =~= s.drop_last().push(s.last()));
    } else {
        assert(sort_by_date(s) =~= s);
    }
}


/// Publication dates compare in calendar order: a missing date comes
/// before every date, and a date `x` is not after `y` exactly when `y` is
/// not earlier in the calendar than `x` (earlier year; or same year and
/// earlier month; or same year and month and earlier day).
pub proof fn lemma_date_order_is_calendar(x: Date, y: Date)
    ensures
        date_le(None, Some(y)),
        date_le(None, None),
        !date_le(Some(x), None),
        date_le(Some(x), Some(y)) <==> !(
            y@.0 < x@.0
            || (y@.0 == x@.0 && y@.1 < x@.1)
            || (y@.0 == x@.0 && y@.1 == x@.1 && y@.2 < x@.2)
        ),
        date_le(Some(x), Some(y)) <==> !calendar_before(y, x),
{
}

/// `y` is earlier in the calendar than `x`: an earlier year; or the same
/// year and an earlier month; or the same year and month and an earlier day.
pub open spec fn calendar_before(y: Date, x: Date) -> bool {
    y@.0 < x@.0
    || (y@.0 == x@.0 && y@.1 < x@.1)
    || (y@.0 == x@.0 && y@.1 == x@.1 && y@.2 < x@.2)
}

/// The sorted notices come in calendar order: a notice dated earlier in the
/// calendar never follows one dated later, and undated notices come before
/// every dated one.
pub proof fn lemma_sorted_notices_chronological(s: Seq<NoticeSent>, i: int, j: int)
    requires
        0 <= i < j < sort_by_date(s).len(),
    ensures
        sort_by_date(s)[j].published_date is None ==> sort_by_date(s)[i].published_date is None,
        sort_by_date(s)[i].published_date is Some && sort_by_date(s)[j].published_date is Some
            ==> !calendar_before(sort_by_date(s)[j].published_date->0, sort_by_date(s)[i].published_date->0),
{
    lemma_sort_by_date(s);
    let r = sort_by_date(s);
    assert(date_le(r[i].published_date, r[j].published_date));
    if let (Some(x), Some(y)) = (r[i].published_date, r[j].published_date) {
        lemma_date_order_is_calendar(x, y);
    }
}

// ---------------------------------------------------------------------------
// Where the notices are.

/// The page that lists the notices of a category.
pub open spec fn category_url_text(c: Category) -> Seq<char> {
    match c {
        Category::Training => "https://sv.dut.udn.vn/WebAjax/evLopHP_Load.aspx?E=CTRTBSV&PAGETB=1&COL=TieuDe&NAME=&TAB=0"@,
        Category::ClassNotice => "https://sv.dut.udn.vn/WebAjax/evLopHP_Load.aspx?E=CTRTBGV&PAGETB=1&COL=TieuDe&NAME=&TAB=1"@,
        Category::StudentAffairs => "https://sv.dut.udn.vn/WebAjax/evLopHP_Load.aspx?E=CTRTBSV&PAGETB=1&COL=TieuDe&NAME=&TAB=2"@,
        Category::Tuition => "https://sv.dut.udn.vn/WebAjax/evLopHP_Load.aspx?E=CTRTBSV&PAGETB=1&COL=TieuDe&NAME=&TAB=4"@,
    }
}

/// Each category is fetched from a page of its own: different categories
/// have different pages; every page is the DUT notice list
/// (`...evLopHP_Load.aspx?E=CTRTB`), of lecturers' notices (`GV`) for the
/// class category and of student notices (`SV`) for the others, and its tab
/// is `TAB=0` for training, `TAB=1` for class notices, `TAB=2` for student
/// affairs and `TAB=4` for tuition.
pub proof fn lemma_category_pages(a: Category, b: Category)
    ensures
        category_url_text(a) == category_url_text(b) ==> a == b,
        category_url_text(a).take(55) == "https://sv.dut.udn.vn/WebAjax/evLopHP_Load.aspx?E=CTRTB"@,
        category_url_text(a).subrange(55, 57) == (if a == Category::ClassNotice { "GV"@ } else { "SV"@ }),
        category_url_text(a).len() == 89,
        category_url_text(a).subrange(84, 89) == (match a {
            Category::Training => "TAB=0"@,
            Category::ClassNotice => "TAB=1"@,
            Category::StudentAffairs => "TAB=2"@,
            Category::Tuition => "TAB=4"@,
        }),
{
    reveal_strlit("https://sv.dut.udn.vn/WebAjax/evLopHP_Load.aspx?E=CTRTBSV&PAGETB=1&COL=TieuDe&NAME=&TAB=0");
    reveal_strlit("https://sv.dut.udn.vn/WebAjax/evLopHP_Load.aspx?E=CTRTBGV&PAGETB=1&COL=TieuDe&NAME=&TAB=1");
    reveal_strlit("https://sv.dut.udn.vn/WebAjax/evLopHP_Load.aspx?E=CTRTBSV&PAGETB=1&COL=TieuDe&NAME=&TAB=2");
    reveal_strlit("https://sv.dut.udn.vn/WebAjax/evLopHP_Load.aspx?E=CTRTBSV&PAGETB=1&COL=TieuDe&NAME=&TAB=4");
    reveal_strlit("https://sv.dut.udn.vn/WebAjax/evLopHP_Load.aspx?E=CTRTB");
    reveal_strlit("GV");
    reveal_strlit("SV");
    reveal_strlit("TAB=0");
    reveal_strlit("TAB=1");
    reveal_strlit("TAB=2");
    reveal_strlit("TAB=4");
    let ua = category_url_text(a);
    let ub = category_url_text(b);
    assert(ua.take(55) =~= "https://sv.dut.udn.vn/WebAjax/evLopHP_Load.aspx?E=CTRTB"@);
    assert(ua.subrange(55, 57) =~= (if a == Category::ClassNotice { "GV"@ } else { "SV"@ }));
    assert(ua.subrange(84, 89) =~= (match a {
        Category::Training => "TAB=0"@,
        Category::ClassNotice => "TAB=1"@,
        Category::StudentAffairs => "TAB=2"@,
        Category::Tuition => "TAB=4"@,
    }));
    if ua == ub {
        assert(ua[88] == ub[88]);
    }
}

/// The page that lists the notices of a category.
pub fn category_url(c: Category) -> (r: &'static str)
    ensures
        r@ == category_url_text(c),
{
    match c {
        Category::Training => "https://sv.dut.udn.vn/WebAjax/evLopHP_Load.aspx?E=CTRTBSV&PAGETB=1&COL=TieuDe&NAME=&TAB=0",
        Category::ClassNotice => "https://sv.dut.udn.vn/WebAjax/evLopHP_Load.aspx?E=CTRTBGV&PAGETB=1&COL=TieuDe&NAME=&TAB=1",
        Category::StudentAffairs => "https://sv.dut.udn.vn/WebAjax/evLopHP_Load.aspx?E=CTRTBSV&PAGETB=1&COL=TieuDe&NAME=&TAB=2",
        Category::Tuition => "https://sv.dut.udn.vn/WebAjax/evLopHP_Load.aspx?E=CTRTBSV&PAGETB=1&COL=TieuDe&NAME=&TAB=4",
    }
}

} // verus!
