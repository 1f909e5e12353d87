use web_crawler::numbers::{parse_i32, push_decimal};
use web_crawler::text::{
    chars_of, contains, references_ascii, replace, split, string_from, to_string, to_string1,
};

fn chars(s: &str) -> Vec<char> {
    s.chars().collect()
}

fn pieces(s: &str, p: &str) -> Vec<String> {
    split(&chars(s), &chars(p)).iter().map(|v| v.iter().collect()).collect()
}

#[test]
fn join_with_commas() {
    let d = vec!["a".to_string(), "b".to_string(), "c".to_string()];
    assert_eq!(to_string(&d), "a,b,c");
    assert_eq!(to_string(&vec!["only".to_string()]), "only");
    assert_eq!(to_string(&vec![]), "");
}

#[test]
fn terminate_with_commas() {
    assert_eq!(to_string1(&vec!["a", "b"]), "a,b,");
    assert_eq!(to_string1(&vec![]), "");
}

#[test]
fn split_like_str_split() {
    assert_eq!(pieces("a,b,,c", ","), vec!["a", "b", "", "c"]);
    assert_eq!(pieces("", ","), vec![""]);
    assert_eq!(pieces("a,", ","), vec!["a", ""]);
    assert_eq!(pieces("aaa", "aa"), vec!["", "a"]);
    assert_eq!(pieces("x/upload/y.jpg", "upload"), vec!["x/", "/y.jpg"]);
}

#[test]
fn replace_like_str_replace() {
    let r: String = replace(&chars("a&b&&c"), &chars("&"), &chars("999999999")).iter().collect();
    assert_eq!(r, "a999999999b999999999999999999c");
    let r: String = replace(&chars("aaaa"), &chars("aa"), &chars("b")).iter().collect();
    assert_eq!(r, "bb");
    let r: String = replace(&chars("abc"), &chars("x"), &chars("y")).iter().collect();
    assert_eq!(r, "abc");
}

#[test]
fn contains_like_str_contains() {
    assert!(contains(&chars("https://www.80s.tw/video/12"), &chars("/video/")));
    assert!(!contains(&chars("https://www.80s.tw/movie/12"), &chars("/video/")));
    assert!(contains(&chars("abc"), &chars("")));
    assert!(!contains(&chars(""), &chars("a")));
}

#[test]
fn chars_round_trip() {
    let s = "电影 [第2季] & more";
    assert_eq!(string_from(&chars_of(s)), s);
}

#[test]
fn decimal_numerals() {
    let mut out = Vec::new();
    push_decimal(0, &mut out);
    assert_eq!(out.iter().collect::<String>(), "0");
    let mut out = vec!['p'];
    push_decimal(4294967295, &mut out);
    assert_eq!(out.iter().collect::<String>(), "p4294967295");
}

#[test]
fn integer_parsing_follows_std() {
    assert_eq!(parse_i32("123"), Ok(123));
    assert_eq!(parse_i32("+7"), Ok(7));
    assert_eq!(parse_i32("-2147483648"), Ok(-2147483648));
    assert_eq!(parse_i32(""), Err("cannot parse integer from empty string".to_string()));
    assert_eq!(parse_i32("12a"), Err("invalid digit found in string".to_string()));
    assert_eq!(parse_i32("2147483648"), Err("number too large to fit in target type".to_string()));
}

#[test]
fn reference_names_checked_for_ascii() {
    assert!(references_ascii(&chars("no references")));
    assert!(references_ascii(&chars("a &amp; b &x=1 &#233; end&")));
    assert!(references_ascii(&chars("&a;é and &é")) == false);
    assert!(!references_ascii(&chars("x&abcé")));
    assert!(references_ascii(&chars("x&abc é")));
}
