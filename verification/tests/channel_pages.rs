use web_crawler::fault::CrawlError;
use web_crawler::pages::{
    list_url, page_urls, parse_first_page, parse_list_page, parse_saved_list_page,
    strip_ampersands,
};

fn strings(v: &[&str]) -> Vec<String> {
    v.iter().map(|s| s.to_string()).collect()
}

fn message(r: Result<Vec<String>, CrawlError>) -> String {
    match r {
        Err(CrawlError::Message(m)) => m,
        other => panic!("expected a message, got {:?}", other),
    }
}

#[test]
fn channel_list_address() {
    assert_eq!(list_url("movie"), "https://www.80s.tw/movie/list");
}

#[test]
fn pages_two_to_last() {
    let pages = strings(&["/movie/list/----p1", "/movie/list/----p2", "/movie/list/----p4"]);
    assert_eq!(
        page_urls(&pages).unwrap(),
        strings(&[
            "https://www.80s.tw//movie/list/----p2",
            "https://www.80s.tw//movie/list/----p3",
            "https://www.80s.tw//movie/list/----p4",
        ])
    );
}

#[test]
fn prefix_ends_at_first_p() {
    let pages = strings(&["/ju/list/p-p1", "/ju/list/p-p12"]);
    let urls = page_urls(&pages).unwrap();
    assert_eq!(urls.len(), 11);
    assert_eq!(urls[0], "https://www.80s.tw//ju/list/p2");
    assert_eq!(urls[10], "https://www.80s.tw//ju/list/p12");
}

#[test]
fn a_single_page_channel_has_no_more_pages() {
    assert_eq!(page_urls(&strings(&["/dm/list/p1"])).unwrap(), Vec::<String>::new());
    assert_eq!(page_urls(&strings(&["/dm/list/p-5"])).unwrap(), Vec::<String>::new());
}

#[test]
fn page_errors() {
    assert_eq!(message(page_urls(&vec![])), "last is none");
    assert_eq!(message(page_urls(&strings(&["/dm/list/p1x"]))), "invalid digit found in string");
    assert_eq!(message(page_urls(&strings(&["/dm/list/", "/dm/list/p3"]))), "first page not find p");
    assert!(matches!(page_urls(&strings(&["/dm/p2147483647"])), Err(CrawlError::Broken)));
}

#[test]
fn ampersands_removed() {
    assert_eq!(strip_ampersands("a&b&amp;c"), "abamp;c");
}

const FIRST_PAGE: &str = r#"<html><body>
<div class="pager"><a href="/movie/list/----p1">1</a><a href="/movie/list/----p3">3</a></div>
<ul class="me1 clearfix"><li><a href="/movie/101">A</a></li><li><a href="/movie/102">B</a></li></ul>
</body></html>"#;

#[test]
fn first_page_links() {
    let (pages, items) = parse_first_page("movie", FIRST_PAGE).unwrap();
    assert_eq!(pages, strings(&["/movie/list/----p1", "/movie/list/----p3"]));
    assert_eq!(items, strings(&["/movie/101", "/movie/102"]));
}

#[test]
fn first_page_of_video_needs_other_layout() {
    match parse_first_page("video", FIRST_PAGE) {
        Err(CrawlError::Message(m)) => assert_eq!(m, "me3 not found"),
        other => panic!("unexpected {:?}", other),
    }
}

#[test]
fn first_page_without_pager() {
    match parse_first_page("movie", "<html><body><p>nothing</p></body></html>") {
        Err(CrawlError::Message(m)) => assert_eq!(m, "parse pager error"),
        other => panic!("unexpected {:?}", other),
    }
}

#[test]
fn link_without_address_is_broken() {
    let page = r#"<div class="pager"><a>1</a></div>"#;
    assert!(matches!(parse_first_page("movie", page), Err(CrawlError::Broken)));
}

#[test]
fn list_page_by_address() {
    let page = r#"<ul class="me3 clearfix"><li><a href="/video/9">V</a></li></ul>"#;
    assert_eq!(parse_list_page("https://www.80s.tw/video/list/p2", page).unwrap(), strings(&["/video/9"]));
    assert_eq!(message(parse_list_page("https://www.80s.tw/zy/list/p2", page)), "me1 not found");
}

#[test]
fn saved_list_page_without_list_gives_nothing() {
    assert_eq!(parse_saved_list_page("https://www.80s.tw/zy/list/p2", "<p>x</p>").unwrap(), Vec::<String>::new());
}

#[test]
fn page_numbers_read_back() {
    let urls = page_urls(&strings(&["/m/p1", "/m/p3"])).unwrap();
    assert_eq!(urls, strings(&["https://www.80s.tw//m/p2", "https://www.80s.tw//m/p3"]));
    // Read as pager links, the written addresses give back their numbers.
    let again = page_urls(&urls).unwrap();
    assert_eq!(again.len(), 2);
    assert!(again[1].ends_with("p3"));
}

#[test]
fn saved_list_page_reads_file_as_is() {
    let page = r#"<ul class="me1 clearfix"><li><a href="/zy/1&x=2">x &amp; y</a></li><li><a href="/zy/3&amp;b">z</a></li></ul>"#;
    assert_eq!(
        parse_saved_list_page("https://www.80s.tw/zy/list/p2", page).unwrap(),
        strings(&["/zy/1&x=2", "/zy/3&b"])
    );
}

#[test]
fn saved_list_page_with_non_ascii_reference_stops() {
    let page = r#"<ul class="me1 clearfix"><li><a href="/zy/1&aé">x</a></li></ul>"#;
    assert!(matches!(
        parse_saved_list_page("https://www.80s.tw/zy/list/p2", page),
        Err(CrawlError::Broken)
    ));
    // A non-ASCII character after a name that ends in ASCII is fine.
    let page = r#"<ul class="me1 clearfix"><li><a href="/zy/1&a;é">x</a></li></ul>"#;
    assert_eq!(
        parse_saved_list_page("https://www.80s.tw/zy/list/p2", page).unwrap(),
        strings(&["/zy/1&a;é"])
    );
}

#[test]
fn saved_page_reads_as_fetched() {
    let url = "https://www.80s.tw/zy/list/p2";
    let page = r#"<ul class="me1 clearfix"><li><a href="/zy/1&x=2">a</a></li><li><a href="/zy/5">b</a></li></ul>"#;
    let saved = strip_ampersands(page);
    assert_eq!(parse_saved_list_page(url, &saved).unwrap(), parse_list_page(url, page).unwrap());
    let bare = "<p>x & y</p>";
    assert!(parse_list_page(url, bare).is_err());
    assert_eq!(parse_saved_list_page(url, &strip_ampersands(bare)).unwrap(), Vec::<String>::new());
}

#[test]
fn pages_read_alike_without_ampersands() {
    let page = r#"<div class="pager"><a href="/zy/p1&a">1</a></div><ul class="me1 clearfix"><li><a href="/zy/9&amp;">x</a></li></ul>"#;
    let stripped = strip_ampersands(page);
    assert_eq!(parse_first_page("zy", page).unwrap(), parse_first_page("zy", &stripped).unwrap());
    assert_eq!(parse_first_page("zy", page).unwrap().1, strings(&["/zy/9amp;"]));
    assert_eq!(
        parse_list_page("https://www.80s.tw/zy/list/p2", page).unwrap(),
        parse_list_page("https://www.80s.tw/zy/list/p2", &stripped).unwrap()
    );
}
