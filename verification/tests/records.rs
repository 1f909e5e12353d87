use web_crawler::detail_page::DetailPage;
use web_crawler::info::{append_rows, category_group, convert_record, convert_table, data_header, data_table, info_record, Info};
use web_crawler::retry::RetryLoop;
use web_crawler::table::{
    detail_targets, finished_in, first_field, image_job, item_file_name, read_csv_rows,
    write_csv_rows,
};

fn strings(v: &[&str]) -> Vec<String> {
    v.iter().map(|s| s.to_string()).collect()
}

fn entry(file_path: &str, file_url: &str) -> Info {
    Info {
        category: "电影".to_string(),
        tile: "T".to_string(),
        year: "2001".to_string(),
        area: "A".to_string(),
        types: "ty".to_string(),
        language: "L".to_string(),
        length: "90".to_string(),
        director: "D".to_string(),
        actor: "x,y".to_string(),
        duban: "8".to_string(),
        description: "desc".to_string(),
        season: "".to_string(),
        image_path: "/p.jpg".to_string(),
        image_url: "img/p.jpg".to_string(),
        file_path: file_path.to_string(),
        file_url: file_url.to_string(),
        url: "https://www.80s.tw/movie/1".to_string(),
    }
}

#[test]
fn row_layout() {
    let r = info_record(&entry("f", "u"));
    assert_eq!(r.len(), 17);
    assert_eq!(r[0], "https://www.80s.tw/movie/1");
    assert_eq!(r[2], "T");
    assert_eq!(r[15], "f");
    assert_eq!(r[16], "u");
    assert_eq!(data_header()[2], "title");
    assert_eq!(data_header()[5], "type");
    assert_eq!(data_table(&vec![entry("f", "u")]).len(), 2);
    assert_eq!(append_rows(&entry("f", "u"), true).len(), 1);
    assert_eq!(append_rows(&entry("f", "u"), false)[0], data_header());
}

#[test]
fn category_groups() {
    assert_eq!(category_group(&"电影".to_string()), "影视");
    assert_eq!(category_group(&"电视剧".to_string()), "影视");
    assert_eq!(category_group(&"视频短剧".to_string()), "短片");
    assert_eq!(category_group(&"公开课".to_string()), "短片");
    assert_eq!(category_group(&"动漫".to_string()), "动漫");
}

#[test]
fn one_row_per_file() {
    let rows = convert_record(&info_record(&entry("e1.mp4,e2.mp4", "l1,l2"))).unwrap();
    assert_eq!(rows.len(), 2);
    assert_eq!(rows[0].category, "影视");
    assert_eq!(rows[0].file_path, "e1.mp4");
    assert_eq!(rows[1].file_url, "l2");
    assert_eq!(rows[1].actor, "x,y");
}

#[test]
fn unequal_lists_pair_the_shorter() {
    let rows = convert_record(&info_record(&entry("a,b,c", "l1"))).unwrap();
    assert_eq!(rows.len(), 1);
    let rows = convert_record(&info_record(&entry("", ""))).unwrap();
    assert_eq!(rows.len(), 1);
    assert_eq!(rows[0].file_path, "");
}

#[test]
fn short_rows_rejected() {
    assert!(convert_record(&strings(&["a", "b"])).is_none());
    assert!(image_job(&strings(&["a"; 14])).is_none());
}

#[test]
fn poster_job() {
    let mut r = strings(&["x"; 15]);
    r[13] = "/p.jpg".to_string();
    r[14] = "img.example/p.jpg".to_string();
    assert_eq!(image_job(&r), Some(("https://img.example/p.jpg".to_string(), "data/poster//p.jpg".to_string())));
}

#[test]
fn detail_and_item_files() {
    assert_eq!(detail_targets("/movie/9"), ("https://www.80s.tw//movie/9".to_string(), "data//movie/9".to_string()));
    assert_eq!(item_file_name("https://www.80s.tw/movie/list/-----p2"), "data/items//movie/list/aaaa----p2");
}

#[test]
fn csv_round_trip_and_lookup() {
    let bytes = write_csv_rows(&vec![strings(&["url"]), strings(&["/a"]), strings(&["/b,c"])]).unwrap();
    assert_eq!(String::from_utf8(bytes.clone()).unwrap(), "url\n/a\n\"/b,c\"\n");
    let rows = read_csv_rows(&bytes);
    assert_eq!(rows, vec![Some(strings(&["/a"])), Some(strings(&["/b,c"]))]);
    assert_eq!(finished_in(&rows, "/a"), Some(true));
    assert_eq!(finished_in(&rows, "/b,c"), Some(true));
    assert_eq!(finished_in(&rows, "url"), Some(false));
    assert_eq!(first_field(&rows[1]), Some("/b,c".to_string()));
}

#[test]
fn unreadable_rows() {
    let rows = read_csv_rows(b"a,b\n1,2\n3\n4,5\n");
    assert_eq!(rows[0], Some(strings(&["1", "2"])));
    assert_eq!(rows[1], None);
    assert_eq!(finished_in(&rows, "1"), Some(true));
    assert_eq!(finished_in(&rows, "4"), None);
    assert_eq!(first_field(&rows[1]), None);
    assert!(write_csv_rows(&vec![strings(&["a", "b"]), strings(&["c"])]).is_none());
}

#[test]
fn retry_bookkeeping() {
    let mut run = RetryLoop::new(2, 1);
    assert!(run.unfinished());
    run.job_done();
    run.job_done();
    assert!(!run.unfinished());
    run.reset_count();
    assert_eq!(run.count, 0);
    assert!(!run.end_pass());
    assert_eq!(run.retries, 1);
    assert!(run.end_pass());
    assert_eq!(run.retries, 1);
}

#[allow(dead_code)]
fn unused(_: DetailPage) {}

#[test]
fn whole_table_conversion() {
    let rows = vec![Some(info_record(&entry("a,b", "1,2"))), Some(info_record(&entry("c", "3")))];
    let all = convert_table(&rows).unwrap();
    assert_eq!(all.len(), 3);
    assert_eq!(all[1].file_path, "b");
    assert_eq!(all[2].file_url, "3");
    assert!(convert_table(&vec![Some(info_record(&entry("a", "1"))), None]).is_none());
    assert!(convert_table(&vec![Some(strings(&["short"]))]).is_none());
}
