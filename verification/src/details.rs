//! The detail page of a catalogue item: its category, the saved copy's
//! file name, the season, the poster address, and the choice of download
//! page.

use vstd::prelude::*;
use crate::fault::CrawlError;
use crate::pages::site_root;
use crate::text::{
    chars_of, contains, lemma_split_nonempty, lemma_split_occurs, occurs_in, push_all, replace,
    replace_all, split, split_pieces, starts_with, starts_with_exec, string_from, views,
};

verus! {

/// The category of a detail page address, by the first channel segment
/// that occurs in it.
pub open spec fn category_spec(url: Seq<char>) -> Option<Seq<char>> {
    if occurs_in(url, "/zy/"@) {
        Some("综艺"@)
    } else if occurs_in(url, "/movie/"@) {
        Some("电影"@)
    } else if occurs_in(url, "/ju/"@) {
        Some("电视剧"@)
    } else if occurs_in(url, "/dm/"@) {
        Some("动漫"@)
    } else if occurs_in(url, "/video/"@) {
        Some("视频短剧"@)
    } else if occurs_in(url, "/course/"@) {
        Some("公开课"@)
    } else {
        None
    }
}

/// What `format!("{:?}", s)` writes for a string: `s` quoted, with escapes.
pub uninterp spec fn debug_text(s: Seq<char>) -> Seq<char>;

/// Renders a string with `Debug` (`format!("{:?}", s)`); the result is
/// named, not stated.
#[verifier::external_body]
pub fn debug_string(s: &str) -> (r: String)
    ensures
        r@ == debug_text(s@),
{
    format!("{:?}", s)
}

/// The category of a detail page, or the message for an address of no
/// known channel.
pub fn detail_category(url: &str) -> (res: Result<String, CrawlError>)
    ensures
        match category_spec(url@) {
            Some(c) => res matches Ok(r) && r@ == c,
            None => res matches Err(CrawlError::Message(m)) && m@ == "没有次类型 :"@ + debug_text(
                url@,
            ),
        },
{
    let u = chars_of(url);
    let zy = chars_of("/zy/");
    let movie = chars_of("/movie/");
    let ju = chars_of("/ju/");
    let dm = chars_of("/dm/");
    let video = chars_of("/video/");
    let course = chars_of("/course/");
    if contains(u.as_slice(), zy.as_slice()) {
        Ok(String::from_str("综艺"))
    } else if contains(u.as_slice(), movie.as_slice()) {
        Ok(String::from_str("电影"))
    } else if contains(u.as_slice(), ju.as_slice()) {
        Ok(String::from_str("电视剧"))
    } else if contains(u.as_slice(), dm.as_slice()) {
        Ok(String::from_str("动漫"))
    } else if contains(u.as_slice(), video.as_slice()) {
        Ok(String::from_str("视频短剧"))
    } else if contains(u.as_slice(), course.as_slice()) {
        Ok(String::from_str("公开课"))
    } else {
        let mut m = chars_of("没有次类型 :");
        let d = debug_string(url);
        let dc = chars_of(d.as_str());
        push_all(&mut m, dc.as_slice());
        Err(CrawlError::Message(string_from(m.as_slice())))
    }
}

/// Where the saved copy of a detail page lies: the site part of its
/// address replaced by `data/`.
pub open spec fn detail_file_spec(url: Seq<char>) -> Seq<char> {
    replace_all(url, "https://www.80s.tw"@, "data/"@)
}

/// Where the saved copy of a detail page lies.
pub fn detail_file_name(url: &str) -> (r: String)
    ensures
        r@ == detail_file_spec(url@),
{
    let u = chars_of(url);
    let site = chars_of("https://www.80s.tw");
    let data = chars_of("data/");
    proof {
        reveal_strlit("https://www.80s.tw");
    }
    let r = replace(u.as_slice(), site.as_slice(), data.as_slice());
    string_from(r.as_slice())
}

/// The season named in a title as `[第…季]`: the text between the first
/// `[第` and the next `季]`, or nothing when either marker is absent.
pub open spec fn season_spec(title: Seq<char>) -> Seq<char> {
    if occurs_in(title, "[第"@) && occurs_in(title, "季]"@) {
        split_pieces(split_pieces(title, "[第"@)[1], "季]"@)[0]
    } else {
        Seq::empty()
    }
}

/// The season named in a title (see [`season_spec`]).
pub fn get_ji(s: &str) -> (r: String)
    ensures
        r@ == season_spec(s@),
{
    let t = chars_of(s);
    let open = chars_of("[第");
    let close = chars_of("季]");
    proof {
        reveal_strlit("[第");
        reveal_strlit("季]");
    }
    if contains(t.as_slice(), open.as_slice()) && contains(t.as_slice(), close.as_slice()) {
        proof {
            lemma_split_occurs(t@, open@);
        }
        let f = split(t.as_slice(), open.as_slice());
        let e = split(f[1].as_slice(), close.as_slice());
        proof {
            lemma_split_nonempty(f@[1]@, close@);
        }
        string_from(e[0].as_slice())
    } else {
        String::new()
    }
}

/// The poster address: the `src` with every `//` removed.
pub open spec fn image_url_spec(src: Seq<char>) -> Seq<char> {
    replace_all(src, "//"@, Seq::empty())
}

/// The poster's file name: what follows the last `upload` of its address,
/// or the last `/` when there is no `upload`.
pub open spec fn image_path_spec(src: Seq<char>) -> Seq<char> {
    let u = image_url_spec(src);
    if occurs_in(u, "upload"@) {
        split_pieces(u, "upload"@).last()
    } else {
        split_pieces(u, "/"@).last()
    }
}

/// The poster address and file name of an image `src`, in that order.
pub fn split_str(ss: &str) -> (r: Vec<String>)
    ensures
        r@.len() == 2,
        r@[0]@ == image_url_spec(ss@),
        r@[1]@ == image_path_spec(ss@),
{
    let s = chars_of(ss);
    let slashes = chars_of("//");
    let none: Vec<char> = Vec::new();
    let upload = chars_of("upload");
    let slash = chars_of("/");
    proof {
        reveal_strlit("//");
        reveal_strlit("upload");
        reveal_strlit("/");
    }
    let url = replace(s.as_slice(), slashes.as_slice(), none.as_slice());
    let pat = if contains(url.as_slice(), upload.as_slice()) {
        upload
    } else {
        slash
    };
    let pieces = split(url.as_slice(), pat.as_slice());
    proof {
        lemma_split_nonempty(url@, pat@);
    }
    let a = string_from(pieces[pieces.len() - 1].as_slice());
    let mut r: Vec<String> = Vec::new();
    r.push(string_from(url.as_slice()));
    r.push(a);
    r
}

/// Some address begins with `t`.
pub open spec fn any_starts_with(addrs: Seq<Seq<char>>, t: Seq<char>) -> bool {
    exists|i: int| 0 <= i < addrs.len() && starts_with(#[trigger] addrs[i], t)
}

/// Whether some address begins with `t`.
pub fn get_a(aa: &Vec<String>, t: &str) -> (r: bool)
    ensures
        r == any_starts_with(views(aa@), t@),
{
    let tc = chars_of(t);
    let mut i: usize = 0;
    while i < aa.len()
        invariant
            i <= aa.len(),
            tc@ == t@,
            forall|j: int| 0 <= j < i ==> !starts_with(#[trigger] views(aa@)[j], t@),
        decreases aa.len() - i,
    {
        let a = chars_of(aa[i].as_str());
        if starts_with_exec(a.as_slice(), tc.as_slice()) {
            assert(starts_with(views(aa@)[i as int], t@));
            return true;
        }
        i = i + 1;
    }
    false
}

/// The download list to open, by the first kind of download the page
/// offers, in order of preference: tablet, phone, small MP4, television.
pub open spec fn download_suffix(addrs: Seq<Seq<char>>) -> Seq<char> {
    if any_starts_with(addrs, "平板"@) {
        "/bd-1"@
    } else if any_starts_with(addrs, "手机"@) {
        "/hd-1"@
    } else if any_starts_with(addrs, "小MP4"@) {
        "/mp4-1"@
    } else if any_starts_with(addrs, "电视"@) {
        "/bt-1"@
    } else {
        Seq::empty()
    }
}

/// The address of a detail page's download list: the page address (with
/// `data/` turned back into the site for a saved copy) and the suffix that
/// [`download_suffix`] chooses.
pub open spec fn download_page_spec(url: Seq<char>, tt: i32, addrs: Seq<Seq<char>>) -> Seq<char> {
    let base = if tt != 0 {
        replace_all(url, "data/"@, site_root())
    } else {
        url
    };
    base + download_suffix(addrs)
}

/// The address of a detail page's download list.
pub fn download_page_url(url: &str, tt: i32, addresses: &Vec<String>) -> (r: String)
    ensures
        r@ == download_page_spec(url@, tt, views(addresses@)),
{
    let mut base = chars_of(url);
    if tt != 0 {
        let data = chars_of("data/");
        let root = chars_of("https://www.80s.tw/");
        proof {
            reveal_strlit("data/");
        }
        base = replace(base.as_slice(), data.as_slice(), root.as_slice());
    }
    let suffix = if get_a(addresses, "平板") {
        "/bd-1"
    } else if get_a(addresses, "手机") {
        "/hd-1"
    } else if get_a(addresses, "小MP4") {
        "/mp4-1"
    } else if get_a(addresses, "电视") {
        "/bt-1"
    } else {
        ""
    };
    let sc = chars_of(suffix);
    proof {
        reveal_strlit("");
    }
    push_all(&mut base, sc.as_slice());
    string_from(base.as_slice())
}

/// The message for a download list that could not be fetched.
pub fn download_fetch_error(add_url: &str) -> (m: String)
    ensures
        m@ == "get content err "@ + debug_text(add_url@),
{
    let mut m = chars_of("get content err ");
    let d = debug_string(add_url);
    let dc = chars_of(d.as_str());
    push_all(&mut m, dc.as_slice());
    string_from(m.as_slice())
}

} // verus!
