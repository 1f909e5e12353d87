//! The channel lists: list addresses, the page addresses that a channel's
//! pager implies, and the item links of a list page.

use vstd::prelude::*;
use crate::dom::{at_node, dom_at_found, found_hrefs, links_in, parse_html, root_addr, Node, NodeAddr};
use crate::fault::{opt_views, CrawlError, Fault};
use crate::numbers::{
    decimal, i32_parse_error_text, int_literal_value, is_i32_literal, parse_i32, push_decimal,
};
use crate::text::{
    ascii_references, chars_of, lemma_no_references, references_ascii, contains, lemma_split_nonempty, starts_with_exec, occurs_in, push_all, replace, replace_all, split,
    split_pieces, string_from, views,
};

verus! {

/// The site that the crawler reads.
pub open spec fn site_root() -> Seq<char> {
    "https://www.80s.tw/"@
}

/// The address of a channel's first list page.
pub open spec fn list_url_spec(chanel: Seq<char>) -> Seq<char> {
    site_root() + chanel + "/list"@
}

/// The page number that a pager link ends with: what follows its last `p`.
pub open spec fn page_number_text(link: Seq<char>) -> Seq<char> {
    split_pieces(link, seq!['p']).last()
}

/// A pager link up to and including its first `p`.
pub open spec fn page_prefix(link: Seq<char>) -> Seq<char> {
    split_pieces(link, seq!['p'])[0].push('p')
}

/// The address of list page `i` of the channel whose pager links begin with
/// `prefix`.
pub open spec fn page_url(prefix: Seq<char>, i: nat) -> Seq<char> {
    site_root() + prefix + decimal(i)
}

/// The list pages 2 to `n` of a channel whose pager links are `pages`, where
/// `n` is the number that ends the last pager link; or why there are none.
pub open spec fn page_urls_spec(pages: Seq<Seq<char>>) -> Result<Seq<Seq<char>>, Fault> {
    if pages.len() == 0 {
        Err(Fault::Message("last is none"@))
    } else {
        let t = page_number_text(pages.last());
        if !is_i32_literal(t) {
            Err(Fault::Message(i32_parse_error_text(t)))
        } else {
            let n = int_literal_value(t).unwrap();
            if n == i32::MAX {
                Err(Fault::Broken)
            } else if !occurs_in(pages[0], seq!['p']) {
                Err(Fault::Message("first page not find p"@))
            } else {
                let count: nat = if n >= 2 {
                    (n - 1) as nat
                } else {
                    0
                };
                Ok(Seq::new(count, |j: int| page_url(page_prefix(pages[0]), (j + 2) as nat)))
            }
        }
    }
}

/// The meaning of a list of strings or a failure.
pub open spec fn strings_result(r: Result<Vec<String>, CrawlError>) -> Result<
    Seq<Seq<char>>,
    Fault,
> {
    match r {
        Ok(v) => Ok(views(v@)),
        Err(e) => Err(e@),
    }
}

/// The address of a channel's first list page.
pub fn list_url(chanel: &str) -> (url: String)
    ensures
        url@ == list_url_spec(chanel@),
{
    let mut out = chars_of("https://www.80s.tw/");
    let c = chars_of(chanel);
    push_all(&mut out, c.as_slice());
    let l = chars_of("/list");
    push_all(&mut out, l.as_slice());
    string_from(out.as_slice())
}

/// The addresses of list pages 2 to `n` of a channel, where `n` is the
/// number after the last `p` of the last pager link and the addresses
/// continue the first pager link up to its first `p`.
pub fn page_urls(pages: &Vec<String>) -> (res: Result<Vec<String>, CrawlError>)
    ensures
        strings_result(res) == page_urls_spec(views(pages@)),
{
    if pages.len() == 0 {
        return Err(CrawlError::Message(String::from_str("last is none")));
    }
    let last = chars_of(pages[pages.len() - 1].as_str());
    let p = vec!['p'];
    let pieces = split(last.as_slice(), p.as_slice());
    proof {
        lemma_split_nonempty(last@, p@);
    }
    assert(p@ =~= seq!['p']);
    let number = string_from(pieces[pieces.len() - 1].as_slice());
    assert(number@ == page_number_text(views(pages@).last()));
    let n: i32 = match parse_i32(number.as_str()) {
        Ok(n) => n,
        Err(m) => {
            return Err(CrawlError::Message(m));
        },
    };
    if n == i32::MAX {
        return Err(CrawlError::Broken);
    }
    let first = chars_of(pages[0].as_str());
    if !contains(first.as_slice(), p.as_slice()) {
        return Err(CrawlError::Message(String::from_str("first page not find p")));
    }
    let first_pieces = split(first.as_slice(), p.as_slice());
    proof {
        lemma_split_nonempty(first@, p@);
    }
    let mut prefix = chars_of("https://www.80s.tw/");
    push_all(&mut prefix, first_pieces[0].as_slice());
    prefix.push('p');
    let ghost pre = page_prefix(views(pages@)[0]);
    assert(prefix@ =~= site_root() + pre);
    let mut urls: Vec<String> = Vec::new();
    let mut i: i32 = 2;
    while i <= n
        invariant
            2 <= i,
            i <= n + 1 || n < 2,
            n < i32::MAX,
            n >= 2 ==> urls@.len() == i - 2,
            n < 2 ==> i == 2 && urls@.len() == 0,
            prefix@ == site_root() + pre,
            forall|j: int|
                0 <= j < urls@.len() ==> #[trigger] urls@[j]@ == page_url(pre, (j + 2) as nat),
        decreases n + 1 - i,
    {
        let mut u = prefix.clone();
        push_decimal(i as u32, &mut u);
        let s = string_from(u.as_slice());
        assert(s@ =~= page_url(pre, i as nat));
        urls.push(s);
        i = i + 1;
    }
    let ghost spec_urls = page_urls_spec(views(pages@));
    assert(views(urls@) =~= spec_urls->Ok_0);
    Ok(urls)
}

/// The meaning of what a list read found: `None` when the container is
/// missing, else the `href` of each link, `None` where a link has none.
pub open spec fn found_view(f: Option<Vec<Option<String>>>) -> Option<Seq<Option<Seq<char>>>> {
    match f {
        Some(v) => Some(opt_views(v@)),
        None => None,
    }
}

/// Some link lacks an `href`.
pub open spec fn some_missing(hs: Seq<Option<Seq<char>>>) -> bool {
    exists|i: int| 0 <= i < hs.len() && #[trigger] hs[i] is None
}

/// The links of a list, given what was found: the message `missing` when the
/// container is absent, a stop when a link has no `href`, else every `href`
/// in order.
pub open spec fn hrefs_outcome(found: Option<Seq<Option<Seq<char>>>>, missing: Seq<char>) -> Result<
    Seq<Seq<char>>,
    Fault,
> {
    match found {
        None => Err(Fault::Message(missing)),
        Some(hs) => if some_missing(hs) {
            Err(Fault::Broken)
        } else {
            Ok(hs.map_values(|h: Option<Seq<char>>| h.unwrap()))
        },
    }
}

/// Like [`hrefs_outcome`], except that a missing container gives no links.
pub open spec fn hrefs_outcome_lenient(found: Option<Seq<Option<Seq<char>>>>) -> Result<
    Seq<Seq<char>>,
    Fault,
> {
    match found {
        None => Ok(Seq::empty()),
        Some(hs) => hrefs_outcome(Some(hs), Seq::empty()),
    }
}

/// The selector of the list container: video pages use another layout.
pub open spec fn container_spec(video: bool) -> Seq<char> {
    if video {
        "[class=me3 clearfix]"@
    } else {
        "[class=me1 clearfix]"@
    }
}

/// The message for a missing list container.
pub open spec fn container_missing_spec(video: bool) -> Seq<char> {
    if video {
        "me3 not found"@
    } else {
        "me1 not found"@
    }
}

/// A list page address is one of the video channel.
pub open spec fn is_video_url(url: Seq<char>) -> bool {
    occurs_in(url, "/video/"@)
}

/// The outcome of reading a channel's first list page: the pager links,
/// then the item links of the list container, which `chanel` selects.
pub open spec fn first_page_spec(
    chanel: Seq<char>,
    pager: Option<Seq<Option<Seq<char>>>>,
    list: Option<Seq<Option<Seq<char>>>>,
) -> Result<(Seq<Seq<char>>, Seq<Seq<char>>), Fault> {
    match hrefs_outcome(pager, "parse pager error"@) {
        Err(e) => Err(e),
        Ok(ps) => match hrefs_outcome(list, container_missing_spec(chanel == "video"@)) {
            Err(e) => Err(e),
            Ok(fs) => Ok((ps, fs)),
        },
    }
}

/// The meaning of a pair of link lists or a failure.
pub open spec fn pair_result(r: Result<(Vec<String>, Vec<String>), CrawlError>) -> Result<
    (Seq<Seq<char>>, Seq<Seq<char>>),
    Fault,
> {
    match r {
        Ok((a, b)) => Ok((views(a@), views(b@))),
        Err(e) => Err(e@),
    }
}

/// The selector of the list container.
pub fn list_container(video: bool) -> (s: &'static str)
    ensures
        s@ == container_spec(video),
{
    if video {
        "[class=me3 clearfix]"
    } else {
        "[class=me1 clearfix]"
    }
}

/// The message for a missing list container.
pub fn container_missing(video: bool) -> (s: String)
    ensures
        s@ == container_missing_spec(video),
{
    if video {
        String::from_str("me3 not found")
    } else {
        String::from_str("me1 not found")
    }
}

/// Whether two character sequences are equal.
pub fn same_chars(a: &[char], b: &[char]) -> (r: bool)
    ensures
        r == (a@ == b@),
{
    if a.len() != b.len() {
        return false;
    }
    let r = starts_with_exec(a, b);
    assert(a@.take(b@.len() as int) =~= a@);
    r
}

/// Whether a list page address is one of the video channel.
pub fn is_video(url: &str) -> (r: bool)
    ensures
        r == is_video_url(url@),
{
    let u = chars_of(url);
    let v = chars_of("/video/");
    contains(u.as_slice(), v.as_slice())
}

/// The links of a list, given what was found (see [`hrefs_outcome`]).
pub fn collect_links(found: &Option<Vec<Option<String>>>, missing: String) -> (res: Result<
    Vec<String>,
    CrawlError,
>)
    ensures
        strings_result(res) == hrefs_outcome(found_view(*found), missing@),
{
    match found {
        None => Err(CrawlError::Message(missing)),
        Some(hs) => {
            let ghost hv = opt_views(hs@);
            let mut out: Vec<String> = Vec::new();
            let mut i: usize = 0;
            while i < hs.len()
                invariant
                    i <= hs.len(),
                    hv == opt_views(hs@),
                    found_view(*found) == Some(hv),
                    out@.len() == i,
                    forall|j: int| 0 <= j < i ==> #[trigger] hv[j] == Some(out@[j]@),
                decreases hs.len() - i,
            {
                match &hs[i] {
                    Some(h) => {
                        out.push(h.clone());
                    },
                    None => {
                        assert(hs@[i as int] is None);
                        assert(hv[i as int] is None);
                        assert(some_missing(hv));
                        return Err(CrawlError::Broken);
                    },
                }
                i = i + 1;
            }
            assert(!some_missing(hv));
            assert(views(out@) =~= hv.map_values(|h: Option<Seq<char>>| h.unwrap()));
            Ok(out)
        },
    }
}

/// Removes every `&` (as the crawler does before parsing a fetched page).
pub fn strip_ampersands(content: &str) -> (r: String)
    ensures
        r@ == replace_all(content@, "&"@, Seq::empty()),
        !occurs_in(r@, "&"@),
{
    let c = chars_of(content);
    let amp = chars_of("&");
    let none: Vec<char> = Vec::new();
    proof {
        reveal_strlit("&");
    }
    let r = replace(c.as_slice(), amp.as_slice(), none.as_slice());
    proof {
        crate::text::lemma_replace_removes(content@, '&', Seq::empty());
        assert(amp@ =~= seq!['&']);
    }
    string_from(r.as_slice())
}

/// The item links of a list page given the links found in its container.
pub fn list_page_result(url: &str, found: &Option<Vec<Option<String>>>) -> (res: Result<
    Vec<String>,
    CrawlError,
>)
    ensures
        strings_result(res) == hrefs_outcome(
            found_view(*found),
            container_missing_spec(is_video_url(url@)),
        ),
{
    let video = is_video(url);
    collect_links(found, container_missing(video))
}

/// The root of a fetched page once every `&` is removed from it.
pub open spec fn stripped_root(content: Seq<char>) -> NodeAddr {
    root_addr(replace_all(content, "&"@, Seq::empty()))
}

/// What a list read finds in the document element at `a`: nothing without a
/// `container` element, else the `href` of each `anchors` element inside the
/// first one.
pub open spec fn links_spec(a: NodeAddr, container: Seq<char>, anchors: Seq<char>) -> Option<
    Seq<Option<Seq<char>>>,
> {
    if dom_at_found(a, container) {
        Some(found_hrefs(at_node(a, container), anchors))
    } else {
        None
    }
}

/// The outcome of a fetched list page: the links of the list container that
/// its address selects, once `&` is removed from the page.
pub open spec fn list_page_spec(url: Seq<char>, content: Seq<char>) -> Result<Seq<Seq<char>>, Fault> {
    hrefs_outcome(
        links_spec(stripped_root(content), container_spec(is_video_url(url)), "li > a"@),
        container_missing_spec(is_video_url(url)),
    )
}

/// The outcome of a saved list page, read as it is: its container's links,
/// none without a container. A page with a character reference whose name is
/// not plain ASCII is not parsed ([`parse_html`] does not take it).
pub open spec fn saved_list_page_spec(url: Seq<char>, content: Seq<char>) -> Result<
    Seq<Seq<char>>,
    Fault,
> {
    if !ascii_references(content) {
        Err(Fault::Broken)
    } else {
        hrefs_outcome_lenient(
            links_spec(root_addr(content), container_spec(is_video_url(url)), "li > a"@),
        )
    }
}

/// The outcome of a channel's fetched first list page: its pager links, then
/// the links of the list container that the channel selects, once `&` is
/// removed from the page.
pub open spec fn first_page_outcome(chanel: Seq<char>, content: Seq<char>) -> Result<
    (Seq<Seq<char>>, Seq<Seq<char>>),
    Fault,
> {
    first_page_spec(
        chanel,
        links_spec(stripped_root(content), "[class=\"pager\"]"@, "a"@),
        links_spec(stripped_root(content), container_spec(chanel == "video"@), "li > a"@),
    )
}

/// Parses a page with every `&` removed.
fn parse_stripped(content: &str) -> (d: Node)
    ensures
        d@ == stripped_root(content@),
{
    let page = strip_ampersands(content);
    proof {
        reveal_strlit("&");
        crate::text::lemma_replace_removes(content@, '&', Seq::empty());
        assert("&"@ =~= seq!['&']);
        lemma_no_references(page@);
    }
    parse_html(page.as_str())
}

/// Reads the item links of a fetched list page: `&` is removed from the
/// page, the list container chosen by the address, and the links read.
pub fn parse_list_page(url: &str, content: &str) -> (res: Result<Vec<String>, CrawlError>)
    ensures
        strings_result(res) == list_page_spec(url@, content@),
{
    let d = parse_stripped(content);
    let video = is_video(url);
    let found = links_in(&d, list_container(video), "li > a");
    assert(found_view(found) == links_spec(d@, container_spec(video), "li > a"@));
    list_page_result(url, &found)
}

/// Reads the item links of a saved list page as the file holds it: a page
/// without a list container gives no links.
pub fn parse_saved_list_page(url: &str, content: &str) -> (res: Result<Vec<String>, CrawlError>)
    ensures
        strings_result(res) == saved_list_page_spec(url@, content@),
{
    let cs = chars_of(content);
    if !references_ascii(cs.as_slice()) {
        return Err(CrawlError::Broken);
    }
    let d = parse_html(content);
    let video = is_video(url);
    let found = links_in(&d, list_container(video), "li > a");
    let ghost fv = found_view(found);
    assert(fv == links_spec(d@, container_spec(video), "li > a"@));
    match found {
        None => {
            let empty: Vec<String> = Vec::new();
            assert(views(empty@) =~= Seq::<Seq<char>>::empty());
            assert(strings_result(Ok(empty)) == hrefs_outcome_lenient(fv));
            Ok(empty)
        },
        Some(hs) => {
            let r = collect_links(&Some(hs), String::new());
            assert(strings_result(r) == hrefs_outcome_lenient(fv));
            r
        },
    }
}

/// The outcome of a channel's first list page given what was found.
pub fn first_page_result(
    chanel: &str,
    pager: &Option<Vec<Option<String>>>,
    list: &Option<Vec<Option<String>>>,
) -> (res: Result<(Vec<String>, Vec<String>), CrawlError>)
    ensures
        pair_result(res) == first_page_spec(chanel@, found_view(*pager), found_view(*list)),
{
    let ps = match collect_links(pager, String::from_str("parse pager error")) {
        Ok(ps) => ps,
        Err(e) => {
            return Err(e);
        },
    };
    let c = chars_of(chanel);
    let v = chars_of("video");
    let video = same_chars(c.as_slice(), v.as_slice());
    let fs = match collect_links(list, container_missing(video)) {
        Ok(fs) => fs,
        Err(e) => {
            return Err(e);
        },
    };
    Ok((ps, fs))
}

/// Reads a channel's fetched first list page: `&` is removed, then the pager
/// links and the item links of the list container are read.
pub fn parse_first_page(chanel: &str, content: &str) -> (res: Result<
    (Vec<String>, Vec<String>),
    CrawlError,
>)
    ensures
        pair_result(res) == first_page_outcome(chanel@, content@),
{
    let d = parse_stripped(content);
    let pager = links_in(&d, "[class=\"pager\"]", "a");
    let c = chars_of(chanel);
    let v = chars_of("video");
    let video = same_chars(c.as_slice(), v.as_slice());
    let list = links_in(&d, list_container(video), "li > a");
    assert(found_view(pager) == links_spec(d@, "[class=\"pager\"]"@, "a"@));
    assert(found_view(list) == links_spec(d@, container_spec(chanel@ == "video"@), "li > a"@));
    first_page_result(chanel, &pager, &list)
}

} // verus!
