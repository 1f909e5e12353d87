use web_crawler::detail_page::{
    assemble_info, detail_precheck, escape_ampersands, read_detail_page, read_download_list,
    restore_ampersands, DetailPage, DownloadEntry, FieldBlock, ImageCell, InfoBlock, SpanText,
};
use web_crawler::details::{
    debug_string, detail_category, detail_file_name, download_fetch_error, download_page_url,
    get_a, get_ji, split_str,
};
use web_crawler::fault::CrawlError;

fn strings(v: &[&str]) -> Vec<String> {
    v.iter().map(|s| s.to_string()).collect()
}

#[test]
fn categories_by_channel() {
    assert_eq!(detail_category("https://www.80s.tw/movie/1").unwrap(), "电影");
    assert_eq!(detail_category("https://www.80s.tw/zy/1").unwrap(), "综艺");
    assert_eq!(detail_category("https://www.80s.tw/ju/1").unwrap(), "电视剧");
    assert_eq!(detail_category("https://www.80s.tw/dm/1").unwrap(), "动漫");
    assert_eq!(detail_category("https://www.80s.tw/video/1").unwrap(), "视频短剧");
    assert_eq!(detail_category("https://www.80s.tw/course/1").unwrap(), "公开课");
    match detail_category("https://www.80s.tw/news/1") {
        Err(CrawlError::Message(m)) => assert_eq!(m, "没有次类型 :\"https://www.80s.tw/news/1\""),
        other => panic!("unexpected {:?}", other),
    }
}

#[test]
fn debug_rendering() {
    assert_eq!(debug_string("a\"b"), "\"a\\\"b\"");
}

#[test]
fn saved_copy_name() {
    assert_eq!(detail_file_name("https://www.80s.tw/movie/123"), "data//movie/123");
}

#[test]
fn season_from_title() {
    assert_eq!(get_ji("权力的游戏 [第8季]"), "8");
    assert_eq!(get_ji("A [第二季] B"), "二");
    assert_eq!(get_ji("No season"), "");
    assert_eq!(get_ji("only [第 open"), "");
}

#[test]
fn poster_address_and_name() {
    assert_eq!(split_str("//img.example.com/upload/img/2019/a.jpg"), strings(&["img.example.com/upload/img/2019/a.jpg", "/img/2019/a.jpg"]));
    assert_eq!(split_str("//img.example.com/x/b.png"), strings(&["img.example.com/x/b.png", "b.png"]));
}

#[test]
fn download_list_choice() {
    let addrs = strings(&["电视 1", "手机 2"]);
    assert!(get_a(&addrs, "手机"));
    assert!(!get_a(&addrs, "平板"));
    assert_eq!(download_page_url("https://www.80s.tw/movie/5", 0, &addrs), "https://www.80s.tw/movie/5/hd-1");
    assert_eq!(download_page_url("https://www.80s.tw/movie/5", 0, &vec![]), "https://www.80s.tw/movie/5");
    assert_eq!(download_page_url("data/movie/5", 1, &strings(&["平板"])), "https://www.80s.tw/movie/5/bd-1");
    assert_eq!(download_page_url("x", 0, &strings(&["小MP4版"])), "x/mp4-1");
    assert_eq!(download_page_url("x", 0, &strings(&["电视版"])), "x/bt-1");
}

#[test]
fn download_fetch_message() {
    assert_eq!(download_fetch_error("https://x/bd-1"), "get content err \"https://x/bd-1\"");
}

#[test]
fn ampersand_escape_round_trip() {
    let e = escape_ampersands("a&b");
    assert_eq!(e, "a999999999b");
    assert_eq!(restore_ampersands(&e), "a&b");
    assert_eq!(restore_ampersands(&"999999999".to_string()), "&");
}

fn page() -> DetailPage {
    DetailPage {
        has_minfo: true,
        image: ImageCell::Source("//pic.example/upload/p/1.jpg".to_string()),
        info: Some(InfoBlock {
            title: Some("剧名 [第2季]".to_string()),
            spans: vec![
                SpanText { text: "类型：".to_string(), following: vec![] },
                SpanText { text: "演员：".to_string(), following: strings(&["甲", "乙"]) },
            ],
            fields: vec![
                FieldBlock { anchors: strings(&["剧情", "爱情"]), text: "x".to_string(), label: Some("类型：".to_string()) },
                FieldBlock { anchors: vec![], text: "nbsp;美国".to_string(), label: Some("地区：".to_string()) },
                FieldBlock { anchors: vec![], text: "2019".to_string(), label: Some("上映日期：".to_string()) },
                FieldBlock { anchors: vec![], text: "9.1".to_string(), label: Some("豆瓣评分：".to_string()) },
                FieldBlock { anchors: vec![], text: "zz".to_string(), label: None },
            ],
            description: Some("故事".to_string()),
        }),
        addresses: strings(&["平板"]),
    }
}

#[test]
fn assembled_entry() {
    let entries = vec![DownloadEntry {
        texts: strings(&["第1集", "第2集"]),
        hrefs: vec![Some("magnet:?a=1999999999b=2".to_string()), Some("thunder://x".to_string())],
    }];
    let info = assemble_info("https://www.80s.tw/ju/7", &"电视剧".to_string(), &page(), &entries).unwrap();
    assert_eq!(info.url, "https://www.80s.tw/ju/7");
    assert_eq!(info.category, "电视剧");
    assert_eq!(info.tile, "剧名 [第2季]");
    assert_eq!(info.season, "2");
    assert_eq!(info.types, "剧情,爱情");
    assert_eq!(info.area, "美国");
    assert_eq!(info.year, "2019");
    assert_eq!(info.duban, "9.1");
    assert_eq!(info.language, "未知");
    assert_eq!(info.length, "未知");
    assert_eq!(info.director, "未知");
    assert_eq!(info.actor, "甲,乙");
    assert_eq!(info.description, "故事");
    assert_eq!(info.image_url, "pic.example/upload/p/1.jpg");
    assert_eq!(info.image_path, "/p/1.jpg");
    assert_eq!(info.file_path, "第1集,第2集");
    assert_eq!(info.file_url, "magnet:?a=1&b=2,thunder://x");
}

#[test]
fn later_fields_win() {
    let mut p = page();
    if let Some(info) = p.info.as_mut() {
        info.fields.push(FieldBlock { anchors: vec![], text: "英国".to_string(), label: Some("地区".to_string()) });
    }
    let info = assemble_info("u/movie/1", &"电影".to_string(), &p, &vec![]).unwrap();
    assert_eq!(info.area, "英国");
    assert_eq!(info.file_path, "");
    assert_eq!(info.file_url, "");
}

#[test]
fn detail_failures() {
    let mut p = page();
    p.has_minfo = false;
    match detail_precheck(&p) {
        Some(CrawlError::Message(m)) => assert_eq!(m, "minfo is none"),
        other => panic!("unexpected {:?}", other),
    }
    let mut p = page();
    p.image = ImageCell::NoChild;
    assert!(matches!(detail_precheck(&p), Some(CrawlError::Broken)));
    let mut p = page();
    p.info = None;
    match assemble_info("u", &"c".to_string(), &p, &vec![]) {
        Err(CrawlError::Message(m)) => assert_eq!(m, "info is none"),
        other => panic!("unexpected {:?}", other),
    }
    let mut p = page();
    p.image = ImageCell::NoSource;
    assert!(detail_precheck(&p).is_none());
    assert!(matches!(assemble_info("u", &"c".to_string(), &p, &vec![]), Err(CrawlError::Broken)));
    let broken = vec![DownloadEntry { texts: vec![], hrefs: vec![None] }];
    assert!(matches!(assemble_info("u", &"c".to_string(), &page(), &broken), Err(CrawlError::Broken)));
}

const DETAIL: &str = r#"<html><body>
<div id="minfo">
<div class="img"><img src="//pic.example/upload/a/b.jpg" /></div>
<div class="info">
<h1>片名</h1>
<span class="span_block"><span>类型：</span><a href="/t1">动作</a><a href="/t2">科幻</a></span>
<span class="span_block"><span>导演：</span><a href="/d">某人</a></span>
<div id="movie_content">简介</div>
</div>
</div>
<ul id="cpage"><li><span>平板下载</span></li></ul>
</body></html>"#;

#[test]
fn detail_page_read() {
    let p = read_detail_page(DETAIL);
    assert!(p.has_minfo);
    assert!(matches!(p.image, ImageCell::Source(ref s) if s == "//pic.example/upload/a/b.jpg"));
    assert_eq!(p.addresses, strings(&["平板下载"]));
    let info = p.info.as_ref().unwrap();
    assert_eq!(info.title.as_deref(), Some("片名"));
    assert_eq!(info.fields.len(), 2);
    assert_eq!(info.fields[0].anchors, strings(&["动作", "科幻"]));
    assert_eq!(info.fields[0].label.as_deref(), Some("类型："));
    assert_eq!(info.description.as_deref(), Some("简介"));
    let entry = assemble_info("https://www.80s.tw/movie/3", &"电影".to_string(), &p, &vec![]).unwrap();
    assert_eq!(entry.types, "动作,科幻");
    assert_eq!(entry.director, "某人");
    assert_eq!(entry.image_path, "/a/b.jpg");
}

#[test]
fn download_list_read() {
    let html = r#"<ul class="dllist1"><li><span class="dlname nm"><a href="magnet:?x=1&y=2">第1集&更多</a></span></li><li><span>no name</span></li></ul>"#;
    let entries = read_download_list(html);
    assert_eq!(entries.len(), 1);
    assert_eq!(entries[0].texts, strings(&["第1集999999999更多"]));
    assert_eq!(entries[0].hrefs, vec![Some("magnet:?x=1999999999y=2".to_string())]);
    let info = assemble_info("https://www.80s.tw/movie/3", &"电影".to_string(), &read_detail_page(DETAIL), &entries).unwrap();
    assert_eq!(info.file_path, "第1集&更多");
    assert_eq!(info.file_url, "magnet:?x=1&y=2");
}
