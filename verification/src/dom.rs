//! The HTML document model of `victoria_dom`, and the reads that the
//! crawler makes of it.
//!
//! Every element that the crawler handles is a [`Node`]: an element of
//! `victoria_dom` together with its address, the document it was parsed from
//! and the steps (`at`, `find`, child, following sibling) that reached it from
//! the document's root. What `victoria_dom` answers for an element is a
//! function of that address, and each of its answers is named here, not
//! stated: which element a CSS selector picks and what text an element holds
//! is `victoria_dom`'s to decide. The reads below copy those answers into plain
//! values, and their contracts say which answer each value is.

use std::rc::Rc;
use vstd::prelude::*;
use victoria_dom::DOM;
use crate::fault::opt_views;
use crate::text::{ascii_references, views};

verus! {

#[verifier::external_type_specification]
#[verifier::external_body]
pub struct ExDom(DOM);

/// One step from an element to another element.
pub enum Step {
    /// The first descendant matching a selector (`DOM::at`).
    At(Seq<char>),
    /// The `k`th descendant matching a selector (`DOM::find`).
    Find(Seq<char>, nat),
    /// The `k`th child element (`DOM::childs`).
    Child(nat),
    /// The `k`th sibling element after it (`DOM::following`).
    Following(nat),
}

/// A step, as the node holds it.
pub enum Move {
    At(String),
    Find(String, usize),
    Child(usize),
    Following(usize),
}

impl View for Move {
    type V = Step;

    open spec fn view(&self) -> Step {
        match self {
            Move::At(s) => Step::At(s@),
            Move::Find(s, k) => Step::Find(s@, *k as nat),
            Move::Child(k) => Step::Child(*k as nat),
            Move::Following(k) => Step::Following(*k as nat),
        }
    }
}

/// The steps of a path.
pub open spec fn moves_view(v: Seq<Move>) -> Seq<Step> {
    v.map_values(|m: Move| m@)
}

/// Where an element lies: the document's text and the steps from its root.
pub struct NodeAddr {
    pub html: Seq<char>,
    pub steps: Seq<Step>,
}

/// The root of the document parsed from `html`.
pub open spec fn root_addr(html: Seq<char>) -> NodeAddr {
    NodeAddr { html, steps: Seq::empty() }
}

/// The element one step further.
pub open spec fn step_to(a: NodeAddr, s: Step) -> NodeAddr {
    NodeAddr { html: a.html, steps: a.steps.push(s) }
}

/// An element of a parsed document, with its address.
pub struct Node {
    dom: DOM,
    html: Rc<String>,
    path: Vec<Move>,
}

impl View for Node {
    type V = NodeAddr;

    closed spec fn view(&self) -> NodeAddr {
        NodeAddr { html: self.html@, steps: moves_view(self.path@) }
    }
}

/// A copy of a step.
fn copy_move(m: &Move) -> (r: Move)
    ensures
        r@ == m@,
{
    match m {
        Move::At(s) => Move::At(s.clone()),
        Move::Find(s, k) => Move::Find(s.clone(), *k),
        Move::Child(k) => Move::Child(*k),
        Move::Following(k) => Move::Following(*k),
    }
}

impl Node {
    /// The path of the element one step further.
    fn path_to(&self, m: Move) -> (r: Vec<Move>)
        ensures
            moves_view(r@) == moves_view(self.path@).push(m@),
    {
        let mut r: Vec<Move> = Vec::new();
        let mut i: usize = 0;
        while i < self.path.len()
            invariant
                i <= self.path@.len(),
                moves_view(r@) == moves_view(self.path@).take(i as int),
            decreases self.path.len() - i,
        {
            let ghost before = r@;
            let m = copy_move(&self.path[i]);
            assert(m@ == self.path@[i as int]@);
            r.push(m);
            assert(r@ == before.push(m));
            assert(moves_view(r@) =~= moves_view(before).push(m@));
            assert(moves_view(r@) =~= moves_view(self.path@).take(i + 1));
            i = i + 1;
        }
        let ghost before = r@;
        r.push(m);
        assert(moves_view(self.path@).take(self.path@.len() as int) =~= moves_view(self.path@));
        assert(moves_view(r@) =~= moves_view(before).push(m@));
        r
    }
}

/// Whether `DOM::at` finds an element for the selector.
pub uninterp spec fn dom_at_found(a: NodeAddr, selector: Seq<char>) -> bool;

/// How many elements `DOM::find` gives for the selector.
pub uninterp spec fn dom_find_len(a: NodeAddr, selector: Seq<char>) -> nat;

/// What `DOM::attr` gives for the attribute.
pub uninterp spec fn dom_attr_of(a: NodeAddr, name: Seq<char>) -> Option<Seq<char>>;

/// What `DOM::text` gives.
pub uninterp spec fn dom_text_of(a: NodeAddr) -> Seq<char>;

/// How many elements `DOM::childs(None)` gives.
pub uninterp spec fn dom_childs_len(a: NodeAddr) -> nat;

/// How many elements `DOM::following(None)` gives.
pub uninterp spec fn dom_following_len(a: NodeAddr) -> nat;

/// The CSS selectors that the crawler uses. `victoria_dom` parses a
/// selector when it is used and panics on some (an `nth-child` number out of
/// range, an escape of a surrogate code point); these parse.
pub open spec fn known_selector(s: Seq<char>) -> bool {
    ||| s == "a"@
    ||| s == "li > a"@
    ||| s == "span"@
    ||| s == "h1"@
    ||| s == "#minfo"@
    ||| s == "#cpage"@
    ||| s == "#movie_content"@
    ||| s == "[class=\"pager\"]"@
    ||| s == "[class=me1 clearfix]"@
    ||| s == "[class=me3 clearfix]"@
    ||| s == "[class=img]"@
    ||| s == "[class=info]"@
    ||| s == "span[class=span_block]"@
    ||| s == "[class=dllist1]"@
    ||| s == "[class=dlname nm]"@
}

/// Parses an HTML document (`DOM::new`); the result is the root of the
/// document parsed from `html`. `victoria_dom` decodes each character
/// reference `&name` (its name a run of word characters, Unicode ones
/// included) by cutting the name at byte offsets, which panics on some names
/// that hold a multi-byte character. So every `&` of the document must begin
/// a name made of ASCII characters only; this is somewhat more than the
/// panics demand, whose exact set depends on the crate's entity table.
#[verifier::external_body]
pub fn parse_html(html: &str) -> (d: Node)
    requires
        ascii_references(html@),
    ensures
        d@ == root_addr(html@),
{
    Node { dom: DOM::new(html), html: Rc::new(html.to_string()), path: Vec::new() }
}

/// The first descendant that matches the CSS selector (`DOM::at`): whether
/// there is one is named, and the result lies one `At` step further.
#[verifier::external_body]
pub fn dom_at(d: &Node, selector: &str) -> (r: Option<Node>)
    requires
        known_selector(selector@),
    ensures
        r is Some == dom_at_found(d@, selector@),
        r matches Some(c) ==> c@ == step_to(d@, Step::At(selector@)),
{
    d.dom.at(selector).map(
        |x| Node { dom: x, html: Rc::clone(&d.html), path: d.path_to(Move::At(selector.to_string())) },
    )
}

/// All descendants that match the CSS selector, in document order
/// (`DOM::find`): how many is named, and the `k`th lies one `Find` step
/// further.
#[verifier::external_body]
pub fn dom_find(d: &Node, selector: &str) -> (r: Vec<Node>)
    requires
        known_selector(selector@),
    ensures
        r@.len() == dom_find_len(d@, selector@),
        forall|k: int| 0 <= k < r@.len() ==> #[trigger] r@[k]@ == step_to(d@, Step::Find(selector@, k as nat)),
{
    d.dom.find(selector).into_iter().enumerate().map(
        |(k, x)| Node { dom: x, html: Rc::clone(&d.html), path: d.path_to(Move::Find(selector.to_string(), k)) },
    ).collect()
}

/// The value of an attribute, if the element has it with a value
/// (`DOM::attr`); named.
#[verifier::external_body]
pub fn dom_attr(d: &Node, name: &str) -> (r: Option<String>)
    ensures
        crate::fault::opt_view(r) == dom_attr_of(d@, name@),
{
    d.dom.attr(name).map(|v| v.to_string())
}

/// The element's own text, whitespace-trimmed (`DOM::text`); named.
#[verifier::external_body]
pub fn dom_text(d: &Node) -> (r: String)
    ensures
        r@ == dom_text_of(d@),
{
    d.dom.text()
}

/// The child elements (`DOM::childs` with no selector): how many is named,
/// and the `k`th lies one `Child` step further.
#[verifier::external_body]
pub fn dom_childs(d: &Node) -> (r: Vec<Node>)
    ensures
        r@.len() == dom_childs_len(d@),
        forall|k: int| 0 <= k < r@.len() ==> #[trigger] r@[k]@ == step_to(d@, Step::Child(k as nat)),
{
    d.dom.childs(None).into_iter().enumerate().map(
        |(k, x)| Node { dom: x, html: Rc::clone(&d.html), path: d.path_to(Move::Child(k)) },
    ).collect()
}

/// The sibling elements after this one (`DOM::following` with no
/// selector): how many is named, and the `k`th lies one `Following` step
/// further.
#[verifier::external_body]
pub fn dom_following(d: &Node) -> (r: Vec<Node>)
    ensures
        r@.len() == dom_following_len(d@),
        forall|k: int| 0 <= k < r@.len() ==> #[trigger] r@[k]@ == step_to(d@, Step::Following(k as nat)),
{
    d.dom.following(None).into_iter().enumerate().map(
        |(k, x)| Node { dom: x, html: Rc::clone(&d.html), path: d.path_to(Move::Following(k)) },
    ).collect()
}

/// The element that `at` finds for a selector.
pub open spec fn at_node(a: NodeAddr, selector: Seq<char>) -> NodeAddr {
    step_to(a, Step::At(selector))
}

/// The `k`th element that `find` gives for a selector.
pub open spec fn found_node(a: NodeAddr, selector: Seq<char>, k: int) -> NodeAddr {
    step_to(a, Step::Find(selector, k as nat))
}

/// The `k`th child element.
pub open spec fn child_node(a: NodeAddr, k: int) -> NodeAddr {
    step_to(a, Step::Child(k as nat))
}

/// The texts of the elements that `find` gives for a selector, in order.
pub open spec fn found_texts(a: NodeAddr, selector: Seq<char>) -> Seq<Seq<char>> {
    Seq::new(dom_find_len(a, selector), |k: int| dom_text_of(found_node(a, selector, k)))
}

/// The `href`s of the elements that `find` gives for a selector, in order.
pub open spec fn found_hrefs(a: NodeAddr, selector: Seq<char>) -> Seq<Option<Seq<char>>> {
    Seq::new(dom_find_len(a, selector), |k: int| dom_attr_of(found_node(a, selector, k), "href"@))
}

/// The texts of the sibling elements after an element, in order.
pub open spec fn following_texts(a: NodeAddr) -> Seq<Seq<char>> {
    Seq::new(
        dom_following_len(a),
        |k: int| dom_text_of(step_to(a, Step::Following(k as nat))),
    )
}

/// The `href` of each element in `anchors`, in order.
pub fn hrefs_of(anchors: &Vec<Node>) -> (r: Vec<Option<String>>)
    ensures
        opt_views(r@) == Seq::new(anchors@.len(), |k: int| dom_attr_of(anchors@[k]@, "href"@)),
{
    let mut r: Vec<Option<String>> = Vec::new();
    let mut i: usize = 0;
    while i < anchors.len()
        invariant
            i <= anchors.len(),
            opt_views(r@) == Seq::new(i as nat, |k: int| dom_attr_of(anchors@[k]@, "href"@)),
        decreases anchors.len() - i,
    {
        let ghost before = r@;
        let a = dom_attr(&anchors[i], "href");
        assert(crate::fault::opt_view(a) == dom_attr_of(anchors@[i as int]@, "href"@));
        r.push(a);
        assert(r@ == before.push(a));
        assert(opt_views(r@) =~= opt_views(before).push(crate::fault::opt_view(a)));
        assert(opt_views(r@) =~= Seq::new((i + 1) as nat, |k: int| dom_attr_of(anchors@[k]@, "href"@)));
        i = i + 1;
    }
    r
}

/// The text of each element in `elems`, in order.
pub fn texts_of(elems: &Vec<Node>) -> (r: Vec<String>)
    ensures
        views(r@) == Seq::new(elems@.len(), |k: int| dom_text_of(elems@[k]@)),
{
    let mut r: Vec<String> = Vec::new();
    let mut i: usize = 0;
    while i < elems.len()
        invariant
            i <= elems.len(),
            views(r@) == Seq::new(i as nat, |k: int| dom_text_of(elems@[k]@)),
        decreases elems.len() - i,
    {
        let ghost before = r@;
        let t = dom_text(&elems[i]);
        assert(t@ == dom_text_of(elems@[i as int]@));
        r.push(t);
        assert(r@ == before.push(t));
        assert(views(r@) =~= views(before).push(t@));
        assert(views(r@) =~= Seq::new((i + 1) as nat, |k: int| dom_text_of(elems@[k]@)));
        i = i + 1;
    }
    r
}

/// The texts of the elements that `find` gives for a selector.
pub fn find_texts(d: &Node, selector: &str) -> (r: Vec<String>)
    requires
        known_selector(selector@),
    ensures
        views(r@) == found_texts(d@, selector@),
{
    let found = dom_find(d, selector);
    let r = texts_of(&found);
    assert(views(r@) =~= found_texts(d@, selector@));
    r
}

/// The `href`s of the elements that `find` gives for a selector.
pub fn find_hrefs(d: &Node, selector: &str) -> (r: Vec<Option<String>>)
    requires
        known_selector(selector@),
    ensures
        opt_views(r@) == found_hrefs(d@, selector@),
{
    let found = dom_find(d, selector);
    let r = hrefs_of(&found);
    assert(opt_views(r@) =~= found_hrefs(d@, selector@));
    r
}

/// The `href`s of the elements matching `anchors` inside the first element
/// matching `container`, or `None` when there is no such container.
pub fn links_in(d: &Node, container: &str, anchors: &str) -> (r: Option<Vec<Option<String>>>)
    requires
        known_selector(container@),
        known_selector(anchors@),
    ensures
        r is Some == dom_at_found(d@, container@),
        r matches Some(v) ==> opt_views(v@) == found_hrefs(at_node(d@, container@), anchors@),
{
    match dom_at(d, container) {
        Some(c) => Some(find_hrefs(&c, anchors)),
        None => None,
    }
}

} // verus!
