//! What the crawler reads from a detail page and its download list, and how
//! it assembles a catalogue entry from that.

use vstd::prelude::*;
use crate::details::{image_path_spec, image_url_spec, season_spec, get_ji, split_str};
use crate::dom::{
    at_node, child_node, dom_at, dom_at_found, dom_attr, dom_attr_of, dom_childs, dom_childs_len,
    dom_find, dom_find_len, dom_following, dom_text, dom_text_of, find_hrefs, find_texts,
    found_hrefs, found_node, found_texts, following_texts, parse_html, root_addr, texts_of, Node,
    NodeAddr,
};
use crate::fault::{opt_view, opt_views, CrawlError, Fault};
use crate::info::{info_fields, Info};
use crate::pages::strip_ampersands;
use crate::text::{
    lacks_char, lemma_no_references, lemma_replace_removes, occurs_in,
    chars_of, comma, join, replace, replace_all, starts_with, starts_with_exec, string_from, to_string,
    views,
};

verus! {

// ---------------------------------------------------------------------------
// What is read from the pages
// ---------------------------------------------------------------------------

/// The poster cell of a detail page.
#[derive(Debug)]
pub enum ImageCell {
    /// There is no `[class=img]` element.
    Missing,
    /// The element has no child element.
    NoChild,
    /// Its first child has no `src`.
    NoSource,
    /// The `src` of its first child.
    Source(String),
}

/// A `span` of the information block: its text and the texts of the
/// elements that follow it.
#[derive(Debug)]
pub struct SpanText {
    pub text: String,
    pub following: Vec<String>,
}

/// A `span_block` of the information block: the texts of its links, its
/// own text, and the text of its first child (the field's label).
#[derive(Debug)]
pub struct FieldBlock {
    pub anchors: Vec<String>,
    pub text: String,
    pub label: Option<String>,
}

/// The information block (`[class=info]`) of a detail page.
#[derive(Debug)]
pub struct InfoBlock {
    /// The `h1` text.
    pub title: Option<String>,
    pub spans: Vec<SpanText>,
    pub fields: Vec<FieldBlock>,
    /// The `#movie_content` text.
    pub description: Option<String>,
}

/// What the crawler reads from a detail page.
#[derive(Debug)]
pub struct DetailPage {
    /// There is a `#minfo` element.
    pub has_minfo: bool,
    pub image: ImageCell,
    pub info: Option<InfoBlock>,
    /// The `span` texts in the items of `#cpage`: the kinds of download
    /// offered.
    pub addresses: Vec<String>,
}

/// One entry of a download list: the texts and the `href`s of its links.
#[derive(Debug)]
pub struct DownloadEntry {
    pub texts: Vec<String>,
    pub hrefs: Vec<Option<String>>,
}

// ---------------------------------------------------------------------------
// Reading the pages
// ---------------------------------------------------------------------------

/// A span was read from the element at `a`: its text and the texts of the
/// elements after it.
pub open spec fn span_read(a: NodeAddr, t: SpanText) -> bool {
    t.text@ == dom_text_of(a) && views(t.following@) == following_texts(a)
}

/// The spans of `scope` were read: one per `span` element, in order.
pub open spec fn spans_read(scope: NodeAddr, v: Seq<SpanText>) -> bool {
    &&& v.len() == dom_find_len(scope, "span"@)
    &&& forall|k: int| 0 <= k < v.len() ==> span_read(found_node(scope, "span"@, k), #[trigger] v[k])
}

/// A field block was read from the element at `a`: its link texts, its own
/// text, and the text of its first child, if any.
pub open spec fn field_read(a: NodeAddr, f: FieldBlock) -> bool {
    &&& views(f.anchors@) == found_texts(a, "a"@)
    &&& f.text@ == dom_text_of(a)
    &&& opt_view(f.label) == if dom_childs_len(a) > 0 {
        Some(dom_text_of(child_node(a, 0)))
    } else {
        None
    }
}

/// The field blocks of `scope` were read: one per `span_block`, in order.
pub open spec fn fields_read(scope: NodeAddr, v: Seq<FieldBlock>) -> bool {
    &&& v.len() == dom_find_len(scope, "span[class=span_block]"@)
    &&& forall|k: int|
        0 <= k < v.len() ==> field_read(found_node(scope, "span[class=span_block]"@, k), #[trigger] v[k])
}

/// The poster cell of `minfo` was read: missing without an `[class=img]`
/// element, else by its first child and that child's `src`.
pub open spec fn image_read(minfo: NodeAddr, cell: ImageCell) -> bool {
    if !dom_at_found(minfo, "[class=img]"@) {
        cell is Missing
    } else {
        let img = at_node(minfo, "[class=img]"@);
        if dom_childs_len(img) == 0 {
            cell is NoChild
        } else {
            match dom_attr_of(child_node(img, 0), "src"@) {
                None => cell is NoSource,
                Some(src) => cell matches ImageCell::Source(s) && s@ == src,
            }
        }
    }
}

/// The `span` texts of the first `n` items of `ul`, item after item.
pub open spec fn item_spans(ul: NodeAddr, n: nat) -> Seq<Seq<char>>
    decreases n,
{
    if n == 0 {
        Seq::empty()
    } else {
        item_spans(ul, (n - 1) as nat) + found_texts(child_node(ul, n - 1), "span"@)
    }
}

/// The kinds of download were read from `d`: the `span` texts of every item
/// of `#cpage`, or none without `#cpage`.
pub open spec fn addresses_read(d: NodeAddr, v: Seq<String>) -> bool {
    if dom_at_found(d, "#cpage"@) {
        let ul = at_node(d, "#cpage"@);
        views(v) == item_spans(ul, dom_childs_len(ul))
    } else {
        v.len() == 0
    }
}

/// The text of the element that `at` finds, if it finds one.
pub open spec fn at_text(a: NodeAddr, selector: Seq<char>) -> Option<Seq<char>> {
    if dom_at_found(a, selector) {
        Some(dom_text_of(at_node(a, selector)))
    } else {
        None
    }
}

/// The information block was read from the element at `a`.
pub open spec fn info_read(a: NodeAddr, b: InfoBlock) -> bool {
    &&& opt_view(b.title) == at_text(a, "h1"@)
    &&& opt_view(b.description) == at_text(a, "#movie_content"@)
    &&& spans_read(a, b.spans@)
    &&& fields_read(a, b.fields@)
}

/// A detail page was read from the document whose root is `root`.
pub open spec fn detail_read(root: NodeAddr, p: DetailPage) -> bool {
    &&& addresses_read(root, p.addresses@)
    &&& p.has_minfo == dom_at_found(root, "#minfo"@)
    &&& !p.has_minfo ==> p.info is None && p.image is Missing
    &&& p.has_minfo ==> {
        let m = at_node(root, "#minfo"@);
        &&& image_read(m, p.image)
        &&& p.info is Some == dom_at_found(m, "[class=info]"@)
        &&& p.info matches Some(b) ==> info_read(at_node(m, "[class=info]"@), b)
    }
}

/// The text of each `span` in `scope`, with the texts of its following
/// siblings.
fn read_spans(scope: &Node) -> (r: Vec<SpanText>)
    ensures
        spans_read(scope@, r@),
{
    let spans = dom_find(scope, "span");
    let mut r: Vec<SpanText> = Vec::new();
    let mut i: usize = 0;
    while i < spans.len()
        invariant
            i <= spans@.len(),
            spans@.len() == dom_find_len(scope@, "span"@),
            forall|k: int| 0 <= k < spans@.len() ==> #[trigger] spans@[k]@ == found_node(scope@, "span"@, k),
            r@.len() == i,
            forall|k: int| 0 <= k < i ==> span_read(found_node(scope@, "span"@, k), #[trigger] r@[k]),
        decreases spans.len() - i,
    {
        let s = &spans[i];
        let following = texts_of(&dom_following(s));
        assert(views(following@) =~= following_texts(s@));
        r.push(SpanText { text: dom_text(s), following });
        i = i + 1;
    }
    r
}

/// The `span_block` fields of `scope`.
fn read_fields(scope: &Node) -> (r: Vec<FieldBlock>)
    ensures
        fields_read(scope@, r@),
{
    let blocks = dom_find(scope, "span[class=span_block]");
    let mut r: Vec<FieldBlock> = Vec::new();
    let mut i: usize = 0;
    while i < blocks.len()
        invariant
            i <= blocks@.len(),
            blocks@.len() == dom_find_len(scope@, "span[class=span_block]"@),
            forall|k: int|
                0 <= k < blocks@.len() ==> #[trigger] blocks@[k]@ == found_node(
                    scope@,
                    "span[class=span_block]"@,
                    k,
                ),
            r@.len() == i,
            forall|k: int|
                0 <= k < i ==> field_read(
                    found_node(scope@, "span[class=span_block]"@, k),
                    #[trigger] r@[k],
                ),
        decreases blocks.len() - i,
    {
        let b = &blocks[i];
        let childs = dom_childs(b);
        let label = if childs.len() > 0 {
            Some(dom_text(&childs[0]))
        } else {
            None
        };
        r.push(FieldBlock { anchors: find_texts(b, "a"), text: dom_text(b), label });
        i = i + 1;
    }
    r
}

/// The poster cell of `minfo`.
fn read_image(minfo: &Node) -> (r: ImageCell)
    ensures
        image_read(minfo@, r),
{
    match dom_at(minfo, "[class=img]") {
        None => ImageCell::Missing,
        Some(img) => {
            let childs = dom_childs(&img);
            if childs.len() == 0 {
                ImageCell::NoChild
            } else {
                match dom_attr(&childs[0], "src") {
                    Some(src) => ImageCell::Source(src),
                    None => ImageCell::NoSource,
                }
            }
        },
    }
}

/// The kinds of download listed in `#cpage`.
fn read_addresses(d: &Node) -> (r: Vec<String>)
    ensures
        addresses_read(d@, r@),
{
    let mut r: Vec<String> = Vec::new();
    match dom_at(d, "#cpage") {
        None => {},
        Some(ul) => {
            let items = dom_childs(&ul);
            let mut i: usize = 0;
            while i < items.len()
                invariant
                    i <= items@.len(),
                    items@.len() == dom_childs_len(ul@),
                    forall|k: int| 0 <= k < items@.len() ==> #[trigger] items@[k]@ == child_node(ul@, k),
                    views(r@) == item_spans(ul@, i as nat),
                decreases items.len() - i,
            {
                let ghost before = views(r@);
                let mut texts = find_texts(&items[i], "span");
                let ghost added = views(texts@);
                r.append(&mut texts);
                assert(views(r@) =~= before + added);
                i = i + 1;
            }
        },
    }
    r
}

/// Reads a fetched detail page, after removing every `&` from it (see
/// [`detail_read`]).
pub fn read_detail_page(content: &str) -> (p: DetailPage)
    ensures
        detail_read(root_addr(replace_all(content@, "&"@, Seq::empty())), p),
{
    let page = strip_ampersands(content);
    proof {
        reveal_strlit("&");
        assert("&"@ =~= seq!['&']);
        lemma_replace_removes(content@, '&', Seq::empty());
        lemma_no_references(page@);
    }
    let d = parse_html(page.as_str());
    let addresses = read_addresses(&d);
    match dom_at(&d, "#minfo") {
        None => DetailPage { has_minfo: false, image: ImageCell::Missing, info: None, addresses },
        Some(minfo) => {
            let image = read_image(&minfo);
            let info = match dom_at(&minfo, "[class=info]") {
                None => None,
                Some(i) => {
                    let title = match dom_at(&i, "h1") {
                        Some(h) => Some(dom_text(&h)),
                        None => None,
                    };
                    let description = match dom_at(&i, "#movie_content") {
                        Some(m) => Some(dom_text(&m)),
                        None => None,
                    };
                    Some(
                        InfoBlock {
                            title,
                            spans: read_spans(&i),
                            fields: read_fields(&i),
                            description,
                        },
                    )
                },
            };
            DetailPage { has_minfo: true, image, info, addresses }
        },
    }
}

/// The stand-in for `&` while a download list is parsed.
pub open spec fn amp_mark() -> Seq<char> {
    "999999999"@
}

/// A download list page with every `&` replaced by [`amp_mark`].
pub open spec fn escape_spec(s: Seq<char>) -> Seq<char> {
    replace_all(s, "&"@, amp_mark())
}

/// A text with every [`amp_mark`] turned back into `&`.
pub open spec fn restore_spec(s: Seq<char>) -> Seq<char> {
    replace_all(s, amp_mark(), "&"@)
}

/// Replaces every `&` by [`amp_mark`].
pub fn escape_ampersands(s: &str) -> (r: String)
    ensures
        r@ == escape_spec(s@),
        !occurs_in(r@, "&"@),
{
    let c = chars_of(s);
    let amp = chars_of("&");
    let mark = chars_of("999999999");
    proof {
        reveal_strlit("&");
        reveal_strlit("999999999");
    }
    let r = replace(c.as_slice(), amp.as_slice(), mark.as_slice());
    proof {
        assert(amp@ =~= seq!['&']);
        assert(lacks_char(mark@, '&'));
        lemma_replace_removes(s@, '&', mark@);
    }
    string_from(r.as_slice())
}

/// Turns every [`amp_mark`] back into `&`.
pub fn restore_ampersands(s: &String) -> (r: String)
    ensures
        r@ == restore_spec(s@),
{
    let c = chars_of(s.as_str());
    let amp = chars_of("&");
    let mark = chars_of("999999999");
    proof {
        reveal_strlit("999999999");
    }
    let r = replace(c.as_slice(), mark.as_slice(), amp.as_slice());
    string_from(r.as_slice())
}

/// A download entry was read from the element at `a`: the texts and
/// `href`s of its links.
pub open spec fn entry_read(a: NodeAddr, e: DownloadEntry) -> bool {
    views(e.texts@) == found_texts(a, "a"@) && opt_views(e.hrefs@) == found_hrefs(a, "a"@)
}

/// The `[class=dlname nm]` elements of the first `n` items of `ul`, item
/// after item, for the items that have one.
pub open spec fn named_items(ul: NodeAddr, n: nat) -> Seq<NodeAddr>
    decreases n,
{
    if n == 0 {
        Seq::empty()
    } else {
        let item = child_node(ul, n - 1);
        named_items(ul, (n - 1) as nat) + if dom_at_found(item, "[class=dlname nm]"@) {
            seq![at_node(item, "[class=dlname nm]"@)]
        } else {
            Seq::empty()
        }
    }
}

/// A download list was read from the document whose root is `root`: one
/// entry per named item of `[class=dllist1]`, or none without that list.
pub open spec fn downloads_read(root: NodeAddr, es: Seq<DownloadEntry>) -> bool {
    if dom_at_found(root, "[class=dllist1]"@) {
        let ul = at_node(root, "[class=dllist1]"@);
        let named = named_items(ul, dom_childs_len(ul));
        &&& es.len() == named.len()
        &&& forall|k: int| 0 <= k < es.len() ==> entry_read(named[k], #[trigger] es[k])
    } else {
        es.len() == 0
    }
}

/// Reads a fetched download list page: `&` is replaced by [`amp_mark`], and
/// each item of `[class=dllist1]` that has a `[class=dlname nm]` element
/// gives the texts and `href`s of that element's links (see
/// [`downloads_read`]).
pub fn read_download_list(content: &str) -> (r: Vec<DownloadEntry>)
    ensures
        downloads_read(root_addr(escape_spec(content@)), r@),
{
    let page = escape_ampersands(content);
    proof {
        reveal_strlit("&");
        reveal_strlit("999999999");
        assert("&"@ =~= seq!['&']);
        assert(lacks_char(amp_mark(), '&'));
        lemma_replace_removes(content@, '&', amp_mark());
        lemma_no_references(page@);
    }
    let d = parse_html(page.as_str());
    let mut r: Vec<DownloadEntry> = Vec::new();
    match dom_at(&d, "[class=dllist1]") {
        None => {},
        Some(ul) => {
            let items = dom_childs(&ul);
            let mut i: usize = 0;
            while i < items.len()
                invariant
                    i <= items@.len(),
                    items@.len() == dom_childs_len(ul@),
                    forall|k: int| 0 <= k < items@.len() ==> #[trigger] items@[k]@ == child_node(ul@, k),
                    r@.len() == named_items(ul@, i as nat).len(),
                    forall|k: int|
                        0 <= k < r@.len() ==> entry_read(named_items(ul@, i as nat)[k], #[trigger] r@[k]),
                decreases items.len() - i,
            {
                let ghost prev = named_items(ul@, i as nat);
                assert(named_items(ul@, (i + 1) as nat) == prev + if dom_at_found(
                    child_node(ul@, i as int),
                    "[class=dlname nm]"@,
                ) {
                    seq![at_node(child_node(ul@, i as int), "[class=dlname nm]"@)]
                } else {
                    Seq::<NodeAddr>::empty()
                });
                match dom_at(&items[i], "[class=dlname nm]") {
                    None => {
                        assert(named_items(ul@, (i + 1) as nat) =~= prev);
                    },
                    Some(dl) => {
                        let entry = DownloadEntry { texts: find_texts(&dl, "a"), hrefs: find_hrefs(&dl, "a") };
                        r.push(entry);
                        let ghost next = named_items(ul@, (i + 1) as nat);
                        assert(next =~= prev.push(dl@));
                        assert forall|k: int| 0 <= k < r@.len() implies entry_read(next[k], #[trigger] r@[k]) by {
                            if k < prev.len() {
                                assert(next[k] == prev[k]);
                            }
                        }
                    },
                }
                i = i + 1;
            }
        },
    }
    r
}

// ---------------------------------------------------------------------------
// Assembling an entry
// ---------------------------------------------------------------------------

/// The value of a field that the page does not give.
pub open spec fn unknown() -> Seq<char> {
    "未知"@
}

/// A text without its `nbsp;` remnants.
pub open spec fn nbsp_free(s: Seq<char>) -> Seq<char> {
    replace_all(s, "nbsp;"@, Seq::empty())
}

/// The value of a field block: its link texts joined with commas, or its
/// own text when it has no links, without `nbsp;` remnants.
pub open spec fn block_value(b: FieldBlock) -> Seq<char> {
    if b.anchors@.len() > 0 {
        nbsp_free(join(views(b.anchors@), comma()))
    } else {
        nbsp_free(b.text@)
    }
}

/// Which field a label names: 1 type, 2 area, 3 language, 4 year, 5 length,
/// 6 rating, 7 director, 0 none.
pub open spec fn label_kind(l: Seq<char>) -> nat {
    if starts_with(l, "类型"@) {
        1
    } else if starts_with(l, "地区"@) {
        2
    } else if starts_with(l, "语言"@) {
        3
    } else if starts_with(l, "年代"@) || starts_with(l, "上映日期"@) {
        4
    } else if starts_with(l, "片长"@) {
        5
    } else if starts_with(l, "豆瓣评分"@) {
        6
    } else if starts_with(l, "导演"@) {
        7
    } else {
        0
    }
}

/// Which field a block gives.
pub open spec fn block_kind(b: FieldBlock) -> nat {
    match b.label {
        Some(l) => label_kind(l@),
        None => 0,
    }
}

/// The value of field `kind`: that of the last block that gives it, or
/// [`unknown`].
pub open spec fn field_value(blocks: Seq<FieldBlock>, kind: nat) -> Seq<char>
    decreases blocks.len(),
{
    if blocks.len() == 0 {
        unknown()
    } else if block_kind(blocks.last()) == kind {
        block_value(blocks.last())
    } else {
        field_value(blocks.drop_last(), kind)
    }
}

/// The actors: the texts that follow the first span whose text begins with
/// `演员`, joined with commas, or [`unknown`].
pub open spec fn actor_spec(spans: Seq<SpanText>) -> Seq<char>
    decreases spans.len(),
{
    if spans.len() == 0 {
        unknown()
    } else if starts_with(spans[0].text@, "演员"@) {
        join(views(spans[0].following@), comma())
    } else {
        actor_spec(spans.drop_first())
    }
}

/// The title: the `h1` text, or [`unknown`].
pub open spec fn title_spec(info: InfoBlock) -> Seq<char> {
    match info.title {
        Some(t) => t@,
        None => unknown(),
    }
}

/// The description: the `#movie_content` text, or nothing.
pub open spec fn description_spec(info: InfoBlock) -> Seq<char> {
    match info.description {
        Some(t) => t@,
        None => Seq::empty(),
    }
}

/// Why a detail page gives no entry before its download list is read.
pub open spec fn precheck_spec(p: DetailPage) -> Option<Fault> {
    if !p.has_minfo {
        Some(Fault::Message("minfo is none"@))
    } else if p.image is NoChild {
        Some(Fault::Broken)
    } else if p.info is None {
        Some(Fault::Message("info is none"@))
    } else {
        None
    }
}

/// Some download link has no `href`.
pub open spec fn entries_broken(es: Seq<DownloadEntry>) -> bool {
    exists|i: int, j: int|
        0 <= i < es.len() && 0 <= j < es[i].hrefs@.len() && (#[trigger] es[i].hrefs@[j]) is None
}

/// Texts with [`amp_mark`] turned back into `&`.
pub open spec fn restored(ss: Seq<Seq<char>>) -> Seq<Seq<char>> {
    ss.map_values(|s: Seq<char>| restore_spec(s))
}

/// The `href`s of a list of present links.
pub open spec fn unwrapped(hs: Seq<Option<Seq<char>>>) -> Seq<Seq<char>> {
    hs.map_values(|h: Option<Seq<char>>| h.unwrap())
}

/// The file names of a download list, in order, with `&` restored.
pub open spec fn entry_texts(es: Seq<DownloadEntry>) -> Seq<Seq<char>>
    decreases es.len(),
{
    if es.len() == 0 {
        Seq::empty()
    } else {
        entry_texts(es.drop_last()) + restored(views(es.last().texts@))
    }
}

/// The file links of a download list, in order, with `&` restored.
pub open spec fn entry_links(es: Seq<DownloadEntry>) -> Seq<Seq<char>>
    decreases es.len(),
{
    if es.len() == 0 {
        Seq::empty()
    } else {
        entry_links(es.drop_last()) + restored(unwrapped(opt_views(es.last().hrefs@)))
    }
}

/// The fields of the entry assembled from a detail page whose checks
/// passed and whose poster has a source.
pub open spec fn detail_fields(
    url: Seq<char>,
    category: Seq<char>,
    p: DetailPage,
    es: Seq<DownloadEntry>,
) -> Seq<Seq<char>> {
    let info = p.info.unwrap();
    let fields = info.fields@;
    let src = p.image->Source_0@;
    seq![
        url,
        category,
        title_spec(info),
        field_value(fields, 4),
        field_value(fields, 2),
        field_value(fields, 1),
        field_value(fields, 3),
        field_value(fields, 5),
        field_value(fields, 7),
        actor_spec(info.spans@),
        field_value(fields, 6),
        description_spec(info),
        season_spec(title_spec(info)),
        image_path_spec(src),
        image_url_spec(src),
        join(entry_texts(es), comma()),
        join(entry_links(es), comma()),
    ]
}

/// The failure of a detail page that is found before its download list is
/// read, if any.
pub fn detail_precheck(p: &DetailPage) -> (r: Option<CrawlError>)
    ensures
        match precheck_spec(*p) {
            Some(f) => r matches Some(e) && e@ == f,
            None => r is None,
        },
{
    if !p.has_minfo {
        return Some(CrawlError::Message(String::from_str("minfo is none")));
    }
    if let ImageCell::NoChild = p.image {
        return Some(CrawlError::Broken);
    }
    if p.info.is_none() {
        return Some(CrawlError::Message(String::from_str("info is none")));
    }
    None
}

/// The value of a field block.
pub fn field_block_value(b: &FieldBlock) -> (r: String)
    ensures
        r@ == block_value(*b),
{
    let nbsp = chars_of("nbsp;");
    let none: Vec<char> = Vec::new();
    proof {
        reveal_strlit("nbsp;");
    }
    let raw = if b.anchors.len() > 0 {
        to_string(&b.anchors)
    } else {
        b.text.clone()
    };
    let rc = chars_of(raw.as_str());
    let r = replace(rc.as_slice(), nbsp.as_slice(), none.as_slice());
    string_from(r.as_slice())
}

/// Which field a label names (see [`label_kind`]).
pub fn label_kind_of(label: &Option<String>) -> (k: u8)
    ensures
        k == match label {
            Some(l) => label_kind(l@),
            None => 0,
        },
{
    match label {
        None => 0,
        Some(l) => {
            let c = chars_of(l.as_str());
            let t1 = chars_of("类型");
            let t2 = chars_of("地区");
            let t3 = chars_of("语言");
            let t4 = chars_of("年代");
            let t4b = chars_of("上映日期");
            let t5 = chars_of("片长");
            let t6 = chars_of("豆瓣评分");
            let t7 = chars_of("导演");
            if starts_with_exec(c.as_slice(), t1.as_slice()) {
                1
            } else if starts_with_exec(c.as_slice(), t2.as_slice()) {
                2
            } else if starts_with_exec(c.as_slice(), t3.as_slice()) {
                3
            } else if starts_with_exec(c.as_slice(), t4.as_slice()) || starts_with_exec(
                c.as_slice(),
                t4b.as_slice(),
            ) {
                4
            } else if starts_with_exec(c.as_slice(), t5.as_slice()) {
                5
            } else if starts_with_exec(c.as_slice(), t6.as_slice()) {
                6
            } else if starts_with_exec(c.as_slice(), t7.as_slice()) {
                7
            } else {
                0
            }
        },
    }
}

/// The values of the seven labelled fields, indexed by kind minus one.
pub fn field_values(blocks: &Vec<FieldBlock>) -> (r: Vec<String>)
    ensures
        r@.len() == 7,
        forall|k: int| 0 <= k < 7 ==> #[trigger] r@[k]@ == field_value(blocks@, (k + 1) as nat),
{
    let mut r: Vec<String> = Vec::new();
    let mut k: usize = 0;
    while k < 7
        invariant
            k <= 7,
            r@.len() == k,
            forall|j: int| 0 <= j < k ==> #[trigger] r@[j]@ == unknown(),
        decreases 7 - k,
    {
        r.push(String::from_str("未知"));
        k = k + 1;
    }
    let mut i: usize = 0;
    while i < blocks.len()
        invariant
            i <= blocks.len(),
            r@.len() == 7,
            forall|j: int|
                0 <= j < 7 ==> #[trigger] r@[j]@ == field_value(blocks@.take(i as int), (j + 1) as nat),
        decreases blocks.len() - i,
    {
        let kind = label_kind_of(&blocks[i].label);
        let ghost before = r@;
        assert(blocks@.take(i + 1).drop_last() =~= blocks@.take(i as int));
        assert(blocks@.take(i + 1).last() == blocks@[i as int]);
        if kind > 0 {
            let v = field_block_value(&blocks[i]);
            r.set((kind - 1) as usize, v);
        }
        assert forall|j: int| 0 <= j < 7 implies #[trigger] r@[j]@ == field_value(
            blocks@.take(i + 1),
            (j + 1) as nat,
        ) by {
            if kind > 0 && j == kind - 1 {
            } else {
                assert(r@[j] == before[j]);
            }
        }
        i = i + 1;
    }
    assert(blocks@.take(blocks.len() as int) =~= blocks@);
    r
}

/// The actors (see [`actor_spec`]).
pub fn actor_of(spans: &Vec<SpanText>) -> (r: String)
    ensures
        r@ == actor_spec(spans@),
{
    let t = chars_of("演员");
    let mut i: usize = 0;
    assert(spans@.skip(0) =~= spans@);
    while i < spans.len()
        invariant
            i <= spans.len(),
            t@ == "演员"@,
            actor_spec(spans@) == actor_spec(spans@.skip(i as int)),
        decreases spans.len() - i,
    {
        let c = chars_of(spans[i].text.as_str());
        let ghost rest = spans@.skip(i as int);
        assert(rest[0] == spans@[i as int]);
        if starts_with_exec(c.as_slice(), t.as_slice()) {
            return to_string(&spans[i].following);
        }
        assert(rest.drop_first() =~= spans@.skip(i + 1));
        i = i + 1;
    }
    String::from_str("未知")
}

/// The file names and file links of a download list, each joined with
/// commas and with `&` restored; a stop when a link has no `href`.
pub fn download_files(es: &Vec<DownloadEntry>) -> (res: Result<(String, String), CrawlError>)
    ensures
        res is Ok <==> !entries_broken(es@),
        res matches Err(e) ==> e@ == Fault::Broken,
        res matches Ok((a, b)) ==> a@ == join(entry_texts(es@), comma()) && b@ == join(
            entry_links(es@),
            comma(),
        ),
{
    let mut texts: Vec<String> = Vec::new();
    let mut links: Vec<String> = Vec::new();
    let mut i: usize = 0;
    while i < es.len()
        invariant
            i <= es.len(),
            views(texts@) == entry_texts(es@.take(i as int)),
            views(links@) == entry_links(es@.take(i as int)),
            forall|a: int, b: int|
                0 <= a < i && 0 <= b < es@[a].hrefs@.len() ==> (#[trigger] es@[a].hrefs@[b]) is Some,
        decreases es.len() - i,
    {
        let e = &es[i];
        assert(es@.take(i + 1).drop_last() =~= es@.take(i as int));
        assert(es@.take(i + 1).last() == es@[i as int]);
        let ghost t0 = views(texts@);
        let ghost l0 = views(links@);
        let mut j: usize = 0;
        while j < e.texts.len()
            invariant
                j <= e.texts.len(),
                views(texts@) == t0 + restored(views(e.texts@)).take(j as int),
            decreases e.texts.len() - j,
        {
            let ghost before = views(texts@);
            let r = restore_ampersands(&e.texts[j]);
            texts.push(r);
            assert(views(texts@) =~= before.push(r@));
            assert(r@ == restored(views(e.texts@))[j as int]);
            assert(restored(views(e.texts@)).take(j + 1) =~= restored(views(e.texts@)).take(
                j as int,
            ).push(r@));
            assert(views(texts@) =~= t0 + restored(views(e.texts@)).take(j + 1));
            j = j + 1;
        }
        assert(restored(views(e.texts@)).take(e.texts.len() as int) =~= restored(views(e.texts@)));
        let mut j: usize = 0;
        while j < e.hrefs.len()
            invariant
                i < es@.len(),
                *e == es@[i as int],
                j <= e.hrefs.len(),
                views(links@) == l0 + restored(unwrapped(opt_views(e.hrefs@))).take(j as int),
                forall|b: int| 0 <= b < j ==> (#[trigger] e.hrefs@[b]) is Some,
            decreases e.hrefs.len() - j,
        {
            match &e.hrefs[j] {
                Some(h) => {
                    let ghost before = views(links@);
                    let r = restore_ampersands(h);
                    links.push(r);
                    assert(views(links@) =~= before.push(r@));
                    assert(e.hrefs@[j as int] == Some(*h));
                    assert(r@ == restored(unwrapped(opt_views(e.hrefs@)))[j as int]);
                    assert(restored(unwrapped(opt_views(e.hrefs@))).take(j + 1) =~= restored(
                        unwrapped(opt_views(e.hrefs@)),
                    ).take(j as int).push(r@));
                    assert(views(links@) =~= l0 + restored(unwrapped(opt_views(e.hrefs@))).take(
                        j + 1,
                    ));
                },
                None => {
                    assert(e.hrefs@[j as int] is None);
                    assert(es@[i as int].hrefs@[j as int] is None);
                    assert(entries_broken(es@));
                    return Err(CrawlError::Broken);
                },
            }
            j = j + 1;
        }
        assert(restored(unwrapped(opt_views(e.hrefs@))).take(e.hrefs.len() as int) =~= restored(
            unwrapped(opt_views(e.hrefs@)),
        ));
        i = i + 1;
    }
    assert(es@.take(es.len() as int) =~= es@);
    Ok((to_string(&texts), to_string(&links)))
}

/// Assembles the entry of a detail page from what was read of the page and
/// of its download list: the failures of [`detail_precheck`] first, then a
/// stop when the poster or a download link lacks its address.
pub fn assemble_info(url: &str, category: &String, p: &DetailPage, es: &Vec<DownloadEntry>) -> (res:
    Result<Info, CrawlError>)
    ensures
        precheck_spec(*p) matches Some(f) ==> res matches Err(e) && e@ == f,
        precheck_spec(*p) is None ==> {
            &&& (res is Ok <==> (p.image is Source && !entries_broken(es@)))
            &&& (res matches Err(e) ==> e@ == Fault::Broken)
            &&& (res matches Ok(i) ==> info_fields(i) == detail_fields(url@, category@, *p, es@))
        },
{
    match detail_precheck(p) {
        Some(e) => {
            return Err(e);
        },
        None => {},
    }
    let info = match &p.info {
        Some(info) => info,
        None => {
            return Err(CrawlError::Broken);
        },
    };
    let tile = match &info.title {
        Some(t) => t.clone(),
        None => String::from_str("未知"),
    };
    let season = get_ji(tile.as_str());
    let actor = actor_of(&info.spans);
    let fields = field_values(&info.fields);
    let description = match &info.description {
        Some(t) => t.clone(),
        None => String::new(),
    };
    let (file_path, file_url) = match download_files(es) {
        Ok(pair) => pair,
        Err(e) => {
            return Err(e);
        },
    };
    let images = match &p.image {
        ImageCell::Source(src) => split_str(src.as_str()),
        _ => {
            return Err(CrawlError::Broken);
        },
    };
    let r = Info {
        url: String::from_str(url),
        category: category.clone(),
        tile,
        year: fields[3].clone(),
        area: fields[1].clone(),
        types: fields[0].clone(),
        language: fields[2].clone(),
        length: fields[4].clone(),
        director: fields[6].clone(),
        actor,
        duban: fields[5].clone(),
        description,
        season,
        image_path: images[1].clone(),
        image_url: images[0].clone(),
        file_path,
        file_url,
    };
    assert(info_fields(r) =~= detail_fields(url@, category@, *p, es@));
    Ok(r)
}

} // verus!
