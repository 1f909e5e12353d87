//! The crawler's CSV files: progress logs of one address per row, and the
//! data table. Encoding and decoding is the `csv` crate's; which rows the
//! crawler looks at, and which fields it takes from them, is decided here.

use vstd::prelude::*;
use crate::pages::same_chars;
use crate::text::{chars_of, push_all, replace, replace_all, string_from, views};

verus! {

/// The meaning of a row that may have failed to decode.
pub open spec fn row_view(r: Option<Vec<String>>) -> Option<Seq<Seq<char>>> {
    match r {
        Some(v) => Some(views(v@)),
        None => None,
    }
}

/// The meaning of decoded rows.
pub open spec fn rows_view(rows: Seq<Option<Vec<String>>>) -> Seq<Option<Seq<Seq<char>>>> {
    rows.map_values(|r: Option<Vec<String>>| row_view(r))
}

/// The meaning of rows to encode.
pub open spec fn table_view(rows: Seq<Vec<String>>) -> Seq<Seq<Seq<char>>> {
    rows.map_values(|r: Vec<String>| views(r@))
}

/// The records that `csv`'s default reader yields for a text, in order,
/// `None` for each record it reports as an error. The first record is the
/// reader's header and is not among them.
pub uninterp spec fn csv_rows(bytes: Seq<u8>) -> Seq<Option<Seq<Seq<char>>>>;

/// Decodes CSV text with `csv::Reader::from_reader` and its `records()`,
/// each record as its fields, an error as `None`. The result is named, not
/// stated.
#[verifier::external_body]
pub fn read_csv_rows(bytes: &[u8]) -> (rows: Vec<Option<Vec<String>>>)
    ensures
        rows_view(rows@) == csv_rows(bytes@),
{
    let mut rdr = csv::Reader::from_reader(bytes);
    rdr.records().map(|r| r.ok().map(|rec| rec.iter().map(|f| f.to_string()).collect())).collect()
}

/// The text that `csv`'s default writer produces for the rows, or `None`
/// when it refuses one.
pub uninterp spec fn csv_text(rows: Seq<Seq<Seq<char>>>) -> Option<Seq<u8>>;

/// Encodes rows with `csv::Writer::from_writer` into memory, one
/// `write_record` per row, then `into_inner`; `None` when a call fails. The
/// result is named, not stated.
#[verifier::external_body]
pub fn write_csv_rows(rows: &Vec<Vec<String>>) -> (out: Option<Vec<u8>>)
    ensures
        match out {
            Some(b) => csv_text(table_view(rows@)) == Some(b@),
            None => csv_text(table_view(rows@)) is None,
        },
{
    let mut w = csv::Writer::from_writer(Vec::new());
    for row in rows {
        if w.write_record(row).is_err() {
            return None;
        }
    }
    w.into_inner().ok()
}

/// Looking `item` up in the first column of decoded rows, in order: `true`
/// at the first row that holds it, `false` when none does, `None` at a row
/// that failed to decode or has no field before that.
pub open spec fn lookup_spec(rows: Seq<Option<Seq<Seq<char>>>>, item: Seq<char>) -> Option<bool>
    decreases rows.len(),
{
    if rows.len() == 0 {
        Some(false)
    } else {
        match rows[0] {
            None => None,
            Some(r) => if r.len() == 0 {
                None
            } else if r[0] == item {
                Some(true)
            } else {
                lookup_spec(rows.drop_first(), item)
            },
        }
    }
}

/// Whether `item` is in the first column of a progress log (see
/// [`lookup_spec`]).
pub fn finished_in(rows: &Vec<Option<Vec<String>>>, item: &str) -> (r: Option<bool>)
    ensures
        r == lookup_spec(rows_view(rows@), item@),
{
    let it = chars_of(item);
    let mut i: usize = 0;
    assert(rows_view(rows@).skip(0) =~= rows_view(rows@));
    while i < rows.len()
        invariant
            i <= rows.len(),
            it@ == item@,
            lookup_spec(rows_view(rows@), item@) == lookup_spec(
                rows_view(rows@).skip(i as int),
                item@,
            ),
        decreases rows.len() - i,
    {
        let ghost rest = rows_view(rows@).skip(i as int);
        assert(rest[0] == row_view(rows@[i as int]));
        assert(rest.drop_first() =~= rows_view(rows@).skip(i + 1));
        match &rows[i] {
            None => {
                return None;
            },
            Some(r) => {
                if r.len() == 0 {
                    return None;
                }
                let f = chars_of(r[0].as_str());
                if same_chars(f.as_slice(), it.as_slice()) {
                    return Some(true);
                }
            },
        }
        i = i + 1;
    }
    Some(false)
}

/// The first field of a decoded row, or `None` when the row failed to
/// decode or is empty.
pub fn first_field(row: &Option<Vec<String>>) -> (r: Option<String>)
    ensures
        match row_view(*row) {
            Some(f) => if f.len() > 0 {
                r matches Some(s) && s@ == f[0]
            } else {
                r is None
            },
            None => r is None,
        },
{
    match row {
        Some(f) => if f.len() > 0 {
            Some(f[0].clone())
        } else {
            None
        },
        None => None,
    }
}

/// Concatenates two strings.
pub fn concat(a: &str, b: &str) -> (r: String)
    ensures
        r@ == a@ + b@,
{
    let mut x = chars_of(a);
    let y = chars_of(b);
    push_all(&mut x, y.as_slice());
    string_from(x.as_slice())
}

/// The poster of a data table row: its address (`https://` and the
/// fifteenth field) and the file to save it to (`data/poster/` and the
/// fourteenth field). `None` for a row of fewer than fifteen fields.
pub fn image_job(record: &Vec<String>) -> (r: Option<(String, String)>)
    ensures
        record@.len() < 15 <==> r is None,
        r matches Some((url, file)) ==> url@ == "https://"@ + record@[14]@ && file@
            == "data/poster/"@ + record@[13]@,
{
    if record.len() < 15 {
        return None;
    }
    Some((concat("https://", record[14].as_str()), concat("data/poster/", record[13].as_str())))
}

/// The address of an item's detail page and the file its copy is saved to,
/// for an item path from the item log.
pub fn detail_targets(item: &str) -> (r: (String, String))
    ensures
        r.0@ == "https://www.80s.tw/"@ + item@,
        r.1@ == "data/"@ + item@,
{
    (concat("https://www.80s.tw/", item), concat("data/", item))
}

/// Where the saved copy of a list page lies: the site replaced by
/// `data/items/`, and `/-` by `/aaaa`.
pub open spec fn item_file_spec(url: Seq<char>) -> Seq<char> {
    replace_all(replace_all(url, "https://www.80s.tw"@, "data/items/"@), "/-"@, "/aaaa"@)
}

/// Where the saved copy of a list page lies.
pub fn item_file_name(url: &str) -> (r: String)
    ensures
        r@ == item_file_spec(url@),
{
    let u = chars_of(url);
    let site = chars_of("https://www.80s.tw");
    let items = chars_of("data/items/");
    let dash = chars_of("/-");
    let aaaa = chars_of("/aaaa");
    proof {
        reveal_strlit("https://www.80s.tw");
        reveal_strlit("/-");
    }
    let a = replace(u.as_slice(), site.as_slice(), items.as_slice());
    let b = replace(a.as_slice(), dash.as_slice(), aaaa.as_slice());
    string_from(b.as_slice())
}

} // verus!
