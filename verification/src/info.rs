//! A catalogue entry, its row in the data table, and the conversion of
//! detail rows into one row per downloadable file.

use vstd::prelude::*;
use crate::table::{row_view, rows_view};
use crate::text::{chars_of, comma, split, split_pieces, string_from, views};

verus! {

/// One catalogue entry, as read from its detail page (one row per item) or
/// after conversion (one row per downloadable file).
#[derive(Debug)]
pub struct Info {
    pub category: String,
    pub tile: String,
    pub year: String,
    pub area: String,
    pub types: String,
    pub language: String,
    pub length: String,
    pub director: String,
    pub actor: String,
    pub duban: String,
    pub description: String,
    pub season: String,
    pub image_path: String,
    pub image_url: String,
    pub file_path: String,
    pub file_url: String,
    pub url: String,
}

impl Clone for Info {
    fn clone(&self) -> (r: Self)
        ensures
            r == *self,
    {
        Info {
            category: self.category.clone(),
            tile: self.tile.clone(),
            year: self.year.clone(),
            area: self.area.clone(),
            types: self.types.clone(),
            language: self.language.clone(),
            length: self.length.clone(),
            director: self.director.clone(),
            actor: self.actor.clone(),
            duban: self.duban.clone(),
            description: self.description.clone(),
            season: self.season.clone(),
            image_path: self.image_path.clone(),
            image_url: self.image_url.clone(),
            file_path: self.file_path.clone(),
            file_url: self.file_url.clone(),
            url: self.url.clone(),
        }
    }
}

/// The fields of an entry in the order of a data table row.
pub open spec fn info_fields(i: Info) -> Seq<Seq<char>> {
    seq![
        i.url@,
        i.category@,
        i.tile@,
        i.year@,
        i.area@,
        i.types@,
        i.language@,
        i.length@,
        i.director@,
        i.actor@,
        i.duban@,
        i.description@,
        i.season@,
        i.image_path@,
        i.image_url@,
        i.file_path@,
        i.file_url@,
    ]
}

/// The column names of the data table.
pub open spec fn header_spec() -> Seq<Seq<char>> {
    seq![
        "url"@,
        "category"@,
        "title"@,
        "year"@,
        "area"@,
        "type"@,
        "language"@,
        "length"@,
        "director"@,
        "actor"@,
        "duban"@,
        "description"@,
        "season"@,
        "image_path"@,
        "image_url"@,
        "file_path"@,
        "file_url"@,
    ]
}

/// The number of columns of the data table.
pub open spec fn table_width() -> nat {
    17
}

/// The data table row of an entry.
pub fn info_record(i: &Info) -> (r: Vec<String>)
    ensures
        views(r@) == info_fields(*i),
{
    let mut r: Vec<String> = Vec::new();
    r.push(i.url.clone());
    r.push(i.category.clone());
    r.push(i.tile.clone());
    r.push(i.year.clone());
    r.push(i.area.clone());
    r.push(i.types.clone());
    r.push(i.language.clone());
    r.push(i.length.clone());
    r.push(i.director.clone());
    r.push(i.actor.clone());
    r.push(i.duban.clone());
    r.push(i.description.clone());
    r.push(i.season.clone());
    r.push(i.image_path.clone());
    r.push(i.image_url.clone());
    r.push(i.file_path.clone());
    r.push(i.file_url.clone());
    assert(views(r@) =~= info_fields(*i));
    r
}

/// The header row of the data table.
pub fn data_header() -> (r: Vec<String>)
    ensures
        views(r@) == header_spec(),
{
    let mut r: Vec<String> = Vec::new();
    r.push(String::from_str("url"));
    r.push(String::from_str("category"));
    r.push(String::from_str("title"));
    r.push(String::from_str("year"));
    r.push(String::from_str("area"));
    r.push(String::from_str("type"));
    r.push(String::from_str("language"));
    r.push(String::from_str("length"));
    r.push(String::from_str("director"));
    r.push(String::from_str("actor"));
    r.push(String::from_str("duban"));
    r.push(String::from_str("description"));
    r.push(String::from_str("season"));
    r.push(String::from_str("image_path"));
    r.push(String::from_str("image_url"));
    r.push(String::from_str("file_path"));
    r.push(String::from_str("file_url"));
    assert(views(r@) =~= header_spec());
    r
}

/// The rows of a whole data table: the header, then one row per entry.
pub fn data_table(data: &Vec<Info>) -> (t: Vec<Vec<String>>)
    ensures
        t@.len() == data@.len() + 1,
        views(t@[0]@) == header_spec(),
        forall|k: int| 0 <= k < data@.len() ==> views(#[trigger] t@[k + 1]@) == info_fields(data@[k]),
{
    let mut t: Vec<Vec<String>> = Vec::new();
    t.push(data_header());
    let mut k: usize = 0;
    while k < data.len()
        invariant
            k <= data.len(),
            t@.len() == k + 1,
            views(t@[0]@) == header_spec(),
            forall|j: int| 0 <= j < k ==> views(#[trigger] t@[j + 1]@) == info_fields(data@[j]),
        decreases data.len() - k,
    {
        t.push(info_record(&data[k]));
        k = k + 1;
    }
    t
}

/// The rows appended to the data table for one entry: the header first when
/// the table did not exist yet.
pub fn append_rows(d: &Info, table_exists: bool) -> (t: Vec<Vec<String>>)
    ensures
        table_exists ==> t@.len() == 1 && views(t@[0]@) == info_fields(*d),
        !table_exists ==> t@.len() == 2 && views(t@[0]@) == header_spec() && views(t@[1]@)
            == info_fields(*d),
{
    let mut t: Vec<Vec<String>> = Vec::new();
    if !table_exists {
        t.push(data_header());
    }
    t.push(info_record(d));
    t
}

/// The category under which converted entries are listed: films and
/// series become one group, short videos and lectures another.
pub open spec fn normalize_category(c: Seq<char>) -> Seq<char> {
    if c == "电影"@ || c == "电视剧"@ {
        "影视"@
    } else if c == "视频短剧"@ || c == "公开课"@ {
        "短片"@
    } else {
        c
    }
}

/// The `k`th file row converted from a data table row: the category
/// normalized and the `k`th file name and link in place of the lists.
pub open spec fn converted_fields(record: Seq<Seq<char>>, k: int) -> Seq<Seq<char>> {
    record.take(15).update(1, normalize_category(record[1])) + seq![
        split_pieces(record[15], comma())[k],
        split_pieces(record[16], comma())[k],
    ]
}

/// The number of file rows a data table row converts into: as many as
/// there are file names and links to pair.
pub open spec fn converted_count(record: Seq<Seq<char>>) -> nat {
    let a = split_pieces(record[15], comma()).len();
    let b = split_pieces(record[16], comma()).len();
    if a <= b {
        a
    } else {
        b
    }
}

/// Whether two strings are equal.
fn same_string(a: &String, b: &str) -> (r: bool)
    ensures
        r == (a@ == b@),
{
    let x = chars_of(a.as_str());
    let y = chars_of(b);
    if x.len() != y.len() {
        return false;
    }
    let mut i: usize = 0;
    while i < x.len()
        invariant
            i <= x.len(),
            x.len() == y.len(),
            x@ == a@,
            y@ == b@,
            forall|j: int| 0 <= j < i ==> x@[j] == y@[j],
        decreases x.len() - i,
    {
        if x[i] != y[i] {
            assert(x@[i as int] != y@[i as int]);
            return false;
        }
        i = i + 1;
    }
    assert(x@ =~= y@);
    true
}

/// The category under which converted entries are listed.
pub fn category_group(c: &String) -> (r: String)
    ensures
        r@ == normalize_category(c@),
{
    if same_string(c, "电影") || same_string(c, "电视剧") {
        String::from_str("影视")
    } else if same_string(c, "视频短剧") || same_string(c, "公开课") {
        String::from_str("短片")
    } else {
        c.clone()
    }
}

/// Converts a data table row into one entry per downloadable file: the
/// comma-separated file names and links are paired in order, as many as
/// both lists have. `None` for a row of fewer than seventeen fields.
pub fn convert_record(record: &Vec<String>) -> (res: Option<Vec<Info>>)
    ensures
        res is None <==> record@.len() < table_width(),
        res matches Some(rows) ==> {
            &&& rows@.len() == converted_count(views(record@))
            &&& forall|k: int|
                0 <= k < rows@.len() ==> info_fields(#[trigger] rows@[k]) == converted_fields(
                    views(record@),
                    k,
                )
        },
{
    if record.len() < 17 {
        return None;
    }
    let ghost rv = views(record@);
    let c = vec![','];
    assert(c@ =~= comma());
    let paths_chars = chars_of(record[15].as_str());
    let links_chars = chars_of(record[16].as_str());
    let paths = split(paths_chars.as_slice(), c.as_slice());
    let links = split(links_chars.as_slice(), c.as_slice());
    let n = if paths.len() <= links.len() {
        paths.len()
    } else {
        links.len()
    };
    let cat = category_group(&record[1]);
    let mut all: Vec<Info> = Vec::new();
    let mut k: usize = 0;
    while k < n
        invariant
            k <= n,
            n <= paths@.len(),
            n <= links@.len(),
            n == converted_count(rv),
            rv == views(record@),
            record@.len() >= 17,
            cat@ == normalize_category(rv[1]),
            crate::text::char_views(paths@) == split_pieces(rv[15], comma()),
            crate::text::char_views(links@) == split_pieces(rv[16], comma()),
            all@.len() == k,
            forall|j: int|
                0 <= j < k ==> info_fields(#[trigger] all@[j]) == converted_fields(rv, j),
        decreases n - k,
    {
        let info = Info {
            url: record[0].clone(),
            category: cat.clone(),
            tile: record[2].clone(),
            year: record[3].clone(),
            area: record[4].clone(),
            types: record[5].clone(),
            language: record[6].clone(),
            length: record[7].clone(),
            director: record[8].clone(),
            actor: record[9].clone(),
            duban: record[10].clone(),
            description: record[11].clone(),
            season: record[12].clone(),
            image_path: record[13].clone(),
            image_url: record[14].clone(),
            file_path: string_from(paths[k].as_slice()),
            file_url: string_from(links[k].as_slice()),
        };
        assert(info_fields(info) =~= converted_fields(rv, k as int));
        all.push(info);
        k = k + 1;
    }
    Some(all)
}

/// The file rows that a data table row converts into.
pub open spec fn row_conversion(r: Seq<Seq<char>>) -> Seq<Seq<Seq<char>>> {
    Seq::new(converted_count(r), |k: int| converted_fields(r, k))
}

/// The file rows of a whole data table, row after row.
pub open spec fn table_conversion(rows: Seq<Seq<Seq<char>>>) -> Seq<Seq<Seq<char>>>
    decreases rows.len(),
{
    if rows.len() == 0 {
        Seq::empty()
    } else {
        table_conversion(rows.drop_last()) + row_conversion(rows.last())
    }
}

/// Every row decoded and has the seventeen fields of the data table.
pub open spec fn all_convertible(rows: Seq<Option<Seq<Seq<char>>>>) -> bool {
    forall|i: int|
        0 <= i < rows.len() ==> (#[trigger] rows[i]) is Some && rows[i].unwrap().len()
            >= table_width()
}

/// The fields of each entry.
pub open spec fn entries_fields(v: Seq<Info>) -> Seq<Seq<Seq<char>>> {
    v.map_values(|i: Info| info_fields(i))
}

/// Converts a decoded data table into one entry per downloadable file (see
/// [`convert_record`]); `None` when a row failed to decode or is short.
pub fn convert_table(rows: &Vec<Option<Vec<String>>>) -> (res: Option<Vec<Info>>)
    ensures
        res is Some <==> all_convertible(rows_view(rows@)),
        res matches Some(all) ==> entries_fields(all@) == table_conversion(
            rows_view(rows@).map_values(|r: Option<Seq<Seq<char>>>| r.unwrap()),
        ),
{
    let ghost rv = rows_view(rows@);
    let ghost present = rv.map_values(|r: Option<Seq<Seq<char>>>| r.unwrap());
    let mut all: Vec<Info> = Vec::new();
    let mut i: usize = 0;
    while i < rows.len()
        invariant
            i <= rows.len(),
            rv == rows_view(rows@),
            present == rv.map_values(|r: Option<Seq<Seq<char>>>| r.unwrap()),
            forall|j: int| 0 <= j < i ==> (#[trigger] rv[j]) is Some && rv[j].unwrap().len() >= 17,
            entries_fields(all@) == table_conversion(present.take(i as int)),
        decreases rows.len() - i,
    {
        assert(rv[i as int] == row_view(rows@[i as int]));
        let record = match &rows[i] {
            Some(r) => r,
            None => {
                assert(!all_convertible(rv));
                return None;
            },
        };
        let mut infos = match convert_record(record) {
            Some(v) => v,
            None => {
                assert(!all_convertible(rv));
                return None;
            },
        };
        let ghost before = all@;
        let ghost converted = infos@;
        assert(present[i as int] == views(record@));
        assert(entries_fields(converted) =~= row_conversion(present[i as int]));
        all.append(&mut infos);
        assert(present.take(i + 1).drop_last() =~= present.take(i as int));
        assert(entries_fields(all@) =~= entries_fields(before) + entries_fields(converted));
        i = i + 1;
    }
    assert(present.take(rows.len() as int) =~= present);
    Some(all)
}

} // verus!
