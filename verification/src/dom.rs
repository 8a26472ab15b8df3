//! What the page logic reads of a parsed HTML document: for each element that
//! a CSS selector matches, the element and the siblings after it, flattened
//! in document order with each node's depth in the tree.
use vstd::prelude::*;
use std::iter::once;
use scraper::{Html, Node, Selector};
use crate::text::{all_nonempty, same_text, trim, trim_spec, views};

verus! {

/// What a document node is: text, an element (its local name and its
/// attributes as local name and value), or anything else (comments, doctypes).
#[derive(Debug)]
pub enum DomKind {
    Text(String),
    Element(String, Vec<(String, String)>),
    Other,
}

/// A document node with the number of its ancestors.
#[derive(Debug)]
pub struct DomNode {
    pub depth: usize,
    pub kind: DomKind,
}

/// For `html` parsed as a document by scraper and the CSS selector
/// `selector`: per match, in scraper's order, the matched element, its
/// descendants, then each following sibling followed by its descendants, all
/// in document order (a preorder walk); or, when the selector does not parse,
/// the `Debug` text of the parse error.
pub uninterp spec fn html_select(html: Seq<char>, selector: Seq<char>) -> Result<Seq<Seq<DomNode>>, Seq<char>>;

/// The views of the match lists.
pub open spec fn match_views(v: Seq<Vec<DomNode>>) -> Seq<Seq<DomNode>> {
    v.map_values(|m: Vec<DomNode>| m@)
}

/// A selection that succeeded with the match lists `ms`.
pub open spec fn found(ms: Seq<Seq<DomNode>>) -> Result<Seq<Seq<DomNode>>, Seq<char>> {
    Ok(ms)
}

/// A selection refused because the selector did not parse.
pub open spec fn refused(message: Seq<char>) -> Result<Seq<Seq<DomNode>>, Seq<char>> {
    Err(message)
}

/// Calls `scraper::Selector::parse`, `scraper::Html::parse_document` and
/// `Html::select`, and flattens each match with `NodeRef::next_siblings`,
/// `NodeRef::descendants` and `NodeRef::ancestors`. The contract claims that
/// the result is `html_select` of the two texts (a function of them alone:
/// parsing and matching are deterministic) and that each match list begins
/// with the matched element, as `descendants` yields its root first.
#[verifier::external_body]
pub(crate) fn select_in_html(html: &str, selector: &str) -> (r: Result<Vec<Vec<DomNode>>, String>)
    ensures
        r matches Ok(v) ==> html_select(html@, selector@) == found(match_views(v@)),
        r matches Ok(v) ==> forall|i: int| 0 <= i < v@.len() ==> (#[trigger] v@[i])@.len() > 0 && v@[i]@[0].kind is Element,
        r matches Err(e) ==> html_select(html@, selector@) == refused(e@),
{
    let sel = Selector::parse(selector).map_err(|e| format!("{e:?}"))?;
    let doc = Html::parse_document(html);
    Ok(doc.select(&sel).map(|el| once(*el).chain(el.next_siblings()).flat_map(|n| n.descendants())
        .map(|d| DomNode { depth: d.ancestors().count(), kind: match d.value() {
            Node::Text(t) => DomKind::Text(t.to_string()),
            Node::Element(e) => DomKind::Element(e.name().to_string(), e.attrs().map(|(k, v)| (k.to_string(), v.to_string())).collect()),
            _ => DomKind::Other,
        }}).collect()).collect())
}

/// The first index from `j` on whose node is not deeper than `d`, or the end.
pub open spec fn end_from(m: Seq<DomNode>, d: nat, j: int) -> int
    decreases m.len() - j,
{
    if j >= m.len() || m[j].depth <= d {
        j
    } else {
        end_from(m, d, j + 1)
    }
}

/// The end of the subtree rooted at `i`: the first later node that is not deeper.
pub open spec fn subtree_end(m: Seq<DomNode>, i: int) -> int {
    end_from(m, m[i].depth as nat, i + 1)
}

/// A text node's line: its trimmed text, unless that is empty.
pub open spec fn text_line(n: DomNode) -> Seq<Seq<char>> {
    match n.kind {
        DomKind::Text(s) => if trim_spec(s@).len() > 0 { seq![trim_spec(s@)] } else { Seq::empty() },
        _ => Seq::empty(),
    }
}

/// A node's line, if it has one: the trimmed text of a text node, when that
/// is not empty.
pub open spec fn node_line(n: DomNode) -> Option<Seq<char>> {
    match n.kind {
        DomKind::Text(s) => if trim_spec(s@).len() > 0 { Some(trim_spec(s@)) } else { None },
        _ => None,
    }
}

/// The lines of the text nodes among `m[lo..hi]`, in order.
pub open spec fn lines_in(m: Seq<DomNode>, lo: int, hi: int) -> Seq<Seq<char>>
    decreases hi - lo,
{
    if hi <= lo {
        Seq::empty()
    } else {
        lines_in(m, lo, hi - 1) + text_line(m[hi - 1])
    }
}

/// The lines of the element at `i`: the trimmed, non-empty texts below it.
pub open spec fn lines_of(m: Seq<DomNode>, i: int) -> Seq<Seq<char>> {
    lines_in(m, i, subtree_end(m, i))
}

/// The text of the text nodes among `m[lo..hi]`, concatenated.
pub open spec fn text_in(m: Seq<DomNode>, lo: int, hi: int) -> Seq<char>
    decreases hi - lo,
{
    if hi <= lo {
        Seq::empty()
    } else {
        text_in(m, lo, hi - 1) + match m[hi - 1].kind {
            DomKind::Text(s) => s@,
            _ => Seq::<char>::empty(),
        }
    }
}

/// The value of the first attribute named `key`.
pub open spec fn attr_value(attrs: Seq<(String, String)>, key: Seq<char>) -> Option<Seq<char>>
    decreases attrs.len(),
{
    if attrs.len() == 0 {
        None
    } else if attrs[0].0@ == key {
        Some(attrs[0].1@)
    } else {
        attr_value(attrs.drop_first(), key)
    }
}

/// A `div` element without attributes.
pub open spec fn is_bare_div(n: DomNode) -> bool {
    n.kind matches DomKind::Element(name, attrs) && name@ == "div"@ && attrs@.len() == 0
}

/// A script, or the element whose id is `mobile-banner`.
pub open spec fn is_noise(n: DomNode) -> bool {
    n.kind matches DomKind::Element(name, attrs) && (name@ == "script"@ || attr_value(attrs@, "id"@) == Some("mobile-banner"@))
}

/// Subtrees end after their root.
pub proof fn lemma_end_from_after(m: Seq<DomNode>, d: nat, j: int)
    ensures
        end_from(m, d, j) >= j,
        j <= m.len() ==> end_from(m, d, j) <= m.len(),
        forall|k: int| j <= k < end_from(m, d, j) ==> m[k].depth > d,
    decreases m.len() - j,
{
    if !(j >= m.len() || m[j].depth <= d) {
        lemma_end_from_after(m, d, j + 1);
    }
}

/// The lines found walking `m[j..e]` in order, skipping the whole subtree of
/// each noise element.
pub open spec fn walk_lines(m: Seq<DomNode>, j: int, e: int) -> Seq<Seq<char>>
    decreases m.len() - j,
{
    if j >= e || j < 0 || j >= m.len() {
        Seq::empty()
    } else if is_noise(m[j]) {
        proof {
            lemma_end_from_after(m, m[j].depth as nat, j + 1);
        }
        walk_lines(m, subtree_end(m, j), e)
    } else {
        text_line(m[j]) + walk_lines(m, j + 1, e)
    }
}

/// The lines of the attribute-less `div` children (depth `d + 1`) found in
/// `m[j..e]`, child by child.
pub open spec fn bare_div_lines(m: Seq<DomNode>, d: nat, j: int, e: int) -> Seq<Seq<char>>
    decreases m.len() - j,
{
    if j >= e || j < 0 || j >= m.len() {
        Seq::empty()
    } else if m[j].depth == d + 1 && is_bare_div(m[j]) {
        proof {
            lemma_end_from_after(m, m[j].depth as nat, j + 1);
        }
        lines_of(m, j) + bare_div_lines(m, d, subtree_end(m, j), e)
    } else {
        bare_div_lines(m, d, j + 1, e)
    }
}

/// The first node from `j` on at depth `d` that is an attribute-less `div`.
pub open spec fn sibling_div_from(m: Seq<DomNode>, d: nat, j: int) -> Option<int>
    decreases m.len() - j,
{
    if j >= m.len() || j < 0 {
        None
    } else if m[j].depth == d && is_bare_div(m[j]) {
        Some(j)
    } else {
        sibling_div_from(m, d, j + 1)
    }
}

/// The lines of every match, in order.
pub open spec fn all_lines(ms: Seq<Seq<DomNode>>) -> Seq<Seq<char>>
    decreases ms.len(),
{
    if ms.len() == 0 {
        Seq::empty()
    } else {
        all_lines(ms.drop_last()) + lines_of(ms.last(), 0)
    }
}

/// The end of the subtree rooted at `i`.
pub fn subtree_end_of(m: &Vec<DomNode>, i: usize) -> (e: usize)
    requires
        i < m.len(),
    ensures
        e == subtree_end(m@, i as int),
        i < e <= m.len(),
{
    let d = m[i].depth;
    let mut j = i + 1;
    while j < m.len() && m[j].depth > d
        invariant
            i < j <= m.len(),
            d == m@[i as int].depth,
            end_from(m@, d as nat, j as int) == end_from(m@, d as nat, i + 1),
        decreases m.len() - j,
    {
        j += 1;
    }
    j
}

/// A text node's line, if it has one.
fn line_of_node(n: &DomNode) -> (r: Option<String>)
    ensures
        text_line(*n) == match r {
            Some(s) => seq![s@],
            None => Seq::<Seq<char>>::empty(),
        },
{
    match &n.kind {
        DomKind::Text(s) => {
            let t = trim(s.as_str());
            if t.is_empty() {
                None
            } else {
                Some(t.to_owned())
            }
        },
        _ => None,
    }
}

/// The lines of the text nodes among `m[lo..hi]`.
pub fn lines_in_range(m: &Vec<DomNode>, lo: usize, hi: usize) -> (r: Vec<String>)
    requires
        lo <= hi <= m.len(),
    ensures
        views(r@) == lines_in(m@, lo as int, hi as int),
        views(r@) == m@.subrange(lo as int, hi as int).filter_map(|n: DomNode| node_line(n)),
        r@.len() == m@.subrange(lo as int, hi as int).filter(|n: DomNode| node_line(n) is Some).len(),
{
    let mut out: Vec<String> = Vec::new();
    let mut j = lo;
    while j < hi
        invariant
            lo <= j <= hi <= m.len(),
            views(out@) == lines_in(m@, lo as int, j as int),
        decreases hi - j,
    {
        let ghost before = out@;
        match line_of_node(&m[j]) {
            Some(l) => {
                out.push(l);
                assert(views(out@) == views(before) + seq![l@]);
            },
            None => {},
        }
        j += 1;
    }
    proof {
        lemma_lines_in_one_per_text_node(m@, lo as int, hi as int);
    }
    out
}

/// The lines of the element at `i`.
pub fn lines_of_element(m: &Vec<DomNode>, i: usize) -> (r: Vec<String>)
    requires
        i < m.len(),
    ensures
        views(r@) == lines_of(m@, i as int),
{
    let e = subtree_end_of(m, i);
    lines_in_range(m, i, e)
}

/// The text of the text nodes among `m[lo..hi]`, concatenated.
pub fn text_in_range(m: &Vec<DomNode>, lo: usize, hi: usize) -> (r: String)
    requires
        lo <= hi <= m.len(),
    ensures
        r@ == text_in(m@, lo as int, hi as int),
{
    let mut out = String::new();
    let mut j = lo;
    while j < hi
        invariant
            lo <= j <= hi <= m.len(),
            out@ == text_in(m@, lo as int, j as int),
        decreases hi - j,
    {
        match &m[j].kind {
            DomKind::Text(s) => out.append(s.as_str()),
            _ => {},
        }
        j += 1;
    }
    out
}

/// The value of the first attribute named `key`.
pub fn attr_lookup<'a>(attrs: &'a Vec<(String, String)>, key: &str) -> (r: Option<&'a String>)
    ensures
        match r {
            Some(v) => attr_value(attrs@, key@) == Some(v@),
            None => attr_value(attrs@, key@) is None,
        },
{
    let mut k: usize = 0;
    assert(attrs@.skip(0) == attrs@);
    while k < attrs.len()
        invariant
            k <= attrs.len(),
            attr_value(attrs@, key@) == attr_value(attrs@.skip(k as int), key@),
        decreases attrs.len() - k,
    {
        assert(attrs@.skip(k as int).drop_first() == attrs@.skip(k + 1));
        if same_text(attrs[k].0.as_str(), key) {
            return Some(&attrs[k].1);
        }
        k += 1;
    }
    None
}

/// Whether `n` is a `div` element without attributes.
pub fn bare_div(n: &DomNode) -> (b: bool)
    ensures
        b == is_bare_div(*n),
{
    proof {
        reveal_strlit("div");
    }
    match &n.kind {
        DomKind::Element(name, attrs) => same_text(name.as_str(), "div") && attrs.len() == 0,
        _ => false,
    }
}

/// Whether `n` is a script or the mobile banner.
pub fn noise(n: &DomNode) -> (b: bool)
    ensures
        b == is_noise(*n),
{
    match &n.kind {
        DomKind::Element(name, attrs) => {
            if same_text(name.as_str(), "script") {
                return true;
            }
            match attr_lookup(attrs, "id") {
                Some(v) => same_text(v.as_str(), "mobile-banner"),
                None => false,
            }
        },
        _ => false,
    }
}

/// The lines of `m[1..e]`, skipping noise subtrees.
pub fn walk_skipping_noise(m: &Vec<DomNode>, e: usize) -> (r: Vec<String>)
    requires
        0 < m.len(),
        e <= m.len(),
    ensures
        views(r@) == walk_lines(m@, 1, e as int),
{
    let mut out: Vec<String> = Vec::new();
    let mut j: usize = 1;
    while j < e
        invariant
            1 <= j,
            e <= m.len(),
            j <= m.len(),
            views(out@) + walk_lines(m@, j as int, e as int) == walk_lines(m@, 1, e as int),
        decreases m.len() - j,
    {
        let ghost before = out@;
        if noise(&m[j]) {
            j = subtree_end_of(m, j);
        } else {
            match line_of_node(&m[j]) {
                Some(l) => {
                    out.push(l);
                    assert(views(out@) == views(before) + seq![l@]);
                },
                None => {},
            }
            j += 1;
        }
    }
    out
}

/// The lines of the attribute-less `div` children of the element at 0.
pub fn bare_div_children(m: &Vec<DomNode>, e: usize) -> (r: Vec<String>)
    requires
        0 < m.len(),
        e <= m.len(),
    ensures
        views(r@) == bare_div_lines(m@, m@[0].depth as nat, 1, e as int),
{
    let d = m[0].depth;
    let mut out: Vec<String> = Vec::new();
    let mut j: usize = 1;
    while j < e
        invariant
            1 <= j,
            e <= m.len(),
            d == m@[0].depth,
            j <= m.len(),
            views(out@) + bare_div_lines(m@, d as nat, j as int, e as int) == bare_div_lines(m@, d as nat, 1, e as int),
        decreases m.len() - j,
    {
        if d < m[j].depth && m[j].depth - d == 1 && bare_div(&m[j]) {
            let lines = lines_of_element(m, j);
            let ghost before = out@;
            let mut lines = lines;
            out.append(&mut lines);
            assert(views(out@) == views(before) + lines_of(m@, j as int));
            j = subtree_end_of(m, j);
        } else {
            j += 1;
        }
    }
    out
}

/// The first node from 1 on at the depth of the node at 0 that is an
/// attribute-less `div`.
pub fn next_sibling_div(m: &Vec<DomNode>) -> (r: Option<usize>)
    requires
        0 < m.len(),
    ensures
        match r {
            Some(k) => sibling_div_from(m@, m@[0].depth as nat, 1) == Some(k as int) && k < m.len(),
            None => sibling_div_from(m@, m@[0].depth as nat, 1) is None,
        },
{
    let d = m[0].depth;
    let mut j: usize = 1;
    while j < m.len()
        invariant
            1 <= j <= m.len(),
            d == m@[0].depth,
            sibling_div_from(m@, d as nat, j as int) == sibling_div_from(m@, d as nat, 1),
        decreases m.len() - j,
    {
        if m[j].depth == d && bare_div(&m[j]) {
            return Some(j);
        }
        j += 1;
    }
    None
}

/// The lines of every match, in order.
pub fn lines_of_all(ms: &Vec<Vec<DomNode>>) -> (r: Vec<String>)
    requires
        forall|i: int| 0 <= i < ms@.len() ==> (#[trigger] ms@[i])@.len() > 0,
    ensures
        views(r@) == all_lines(match_views(ms@)),
{
    let mut out: Vec<String> = Vec::new();
    let mut i: usize = 0;
    while i < ms.len()
        invariant
            i <= ms.len(),
            forall|k: int| 0 <= k < ms@.len() ==> (#[trigger] ms@[k])@.len() > 0,
            views(out@) == all_lines(match_views(ms@.take(i as int))),
        decreases ms.len() - i,
    {
        assert(match_views(ms@.take(i + 1)).drop_last() == match_views(ms@.take(i as int)));
        let ghost before = out@;
        let mut lines = lines_of_element(&ms[i], 0);
        out.append(&mut lines);
        assert(views(out@) == views(before) + lines_of(ms@[i as int]@, 0));
        i += 1;
    }
    assert(ms@.take(ms.len() as int) == ms@);
    out
}

/// The lines of a range are its nodes' lines in document order, one for each
/// text node whose trimmed text is not empty: none is merged, repeated or
/// dropped, so a lyric line sung twice is kept twice.
pub proof fn lemma_lines_in_one_per_text_node(m: Seq<DomNode>, lo: int, hi: int)
    requires
        0 <= lo <= hi <= m.len(),
    ensures
        lines_in(m, lo, hi) == m.subrange(lo, hi).filter_map(|n: DomNode| node_line(n)),
        lines_in(m, lo, hi).len() == m.subrange(lo, hi).filter(|n: DomNode| node_line(n) is Some).len(),
    decreases hi - lo,
{
    reveal(Seq::filter);
    let s = m.subrange(lo, hi);
    if hi > lo {
        lemma_lines_in_one_per_text_node(m, lo, hi - 1);
        assert(s.drop_last() == m.subrange(lo, hi - 1));
        assert(s.last() == m[hi - 1]);
    } else {
        assert(s.len() == 0);
    }
}

/// A text node's line is never empty.
pub proof fn lemma_text_line_nonempty(n: DomNode)
    ensures
        all_nonempty(text_line(n)),
{
}

/// The lines of a range are never empty.
pub proof fn lemma_lines_in_nonempty(m: Seq<DomNode>, lo: int, hi: int)
    ensures
        all_nonempty(lines_in(m, lo, hi)),
    decreases hi - lo,
{
    if hi > lo {
        lemma_lines_in_nonempty(m, lo, hi - 1);
        lemma_text_line_nonempty(m[hi - 1]);
        lemma_concat_nonempty(lines_in(m, lo, hi - 1), text_line(m[hi - 1]));
    }
}

/// Concatenating lists of non-empty lines keeps them non-empty.
pub proof fn lemma_concat_nonempty(a: Seq<Seq<char>>, b: Seq<Seq<char>>)
    requires
        all_nonempty(a),
        all_nonempty(b),
    ensures
        all_nonempty(a + b),
{
    assert forall|i: int| 0 <= i < (a + b).len() implies (#[trigger] (a + b)[i]).len() > 0 by {
        if i < a.len() {
            assert((a + b)[i] == a[i]);
        } else {
            assert((a + b)[i] == b[i - a.len()]);
        }
    }
}

/// The walked lines are never empty.
pub proof fn lemma_walk_lines_nonempty(m: Seq<DomNode>, j: int, e: int)
    ensures
        all_nonempty(walk_lines(m, j, e)),
    decreases m.len() - j,
{
    if !(j >= e || j < 0 || j >= m.len()) {
        lemma_end_from_after(m, m[j].depth as nat, j + 1);
        if is_noise(m[j]) {
            lemma_walk_lines_nonempty(m, subtree_end(m, j), e);
        } else {
            lemma_walk_lines_nonempty(m, j + 1, e);
            lemma_text_line_nonempty(m[j]);
            lemma_concat_nonempty(text_line(m[j]), walk_lines(m, j + 1, e));
        }
    }
}

/// The lines of bare `div` children are never empty.
pub proof fn lemma_bare_div_lines_nonempty(m: Seq<DomNode>, d: nat, j: int, e: int)
    ensures
        all_nonempty(bare_div_lines(m, d, j, e)),
    decreases m.len() - j,
{
    if !(j >= e || j < 0 || j >= m.len()) {
        lemma_end_from_after(m, m[j].depth as nat, j + 1);
        if m[j].depth == d + 1 && is_bare_div(m[j]) {
            lemma_bare_div_lines_nonempty(m, d, subtree_end(m, j), e);
            lemma_lines_in_nonempty(m, j, subtree_end(m, j));
            lemma_concat_nonempty(lines_of(m, j), bare_div_lines(m, d, subtree_end(m, j), e));
        } else {
            lemma_bare_div_lines_nonempty(m, d, j + 1, e);
        }
    }
}

/// The lines of all matches are never empty.
pub proof fn lemma_all_lines_nonempty(ms: Seq<Seq<DomNode>>)
    ensures
        all_nonempty(all_lines(ms)),
    decreases ms.len(),
{
    if ms.len() > 0 {
        lemma_all_lines_nonempty(ms.drop_last());
        lemma_lines_in_nonempty(ms.last(), 0, subtree_end(ms.last(), 0));
        lemma_concat_nonempty(all_lines(ms.drop_last()), lines_of(ms.last(), 0));
    }
}

} // verus!
