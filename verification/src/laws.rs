//! Properties that hold across the crawler's steps.

use vstd::prelude::*;
use crate::detail_page::{escape_spec, restore_spec, amp_mark};
use crate::info::{converted_count, converted_fields, info_fields, normalize_category, Info};
use crate::numbers::{all_digits, decimal, digit_char, digits_value, int_literal_value, is_digit};
use crate::dom::dom_at_found;
use crate::fault::Fault;
use crate::pages::{
    container_spec, is_video_url, stripped_root, first_page_outcome, list_page_spec, page_number_text, page_url, saved_list_page_spec, site_root,
};
use crate::text::{
    lacks_char, lemma_no_references, lemma_replace_removes, replace_all,
    comma, join, lemma_split_nonempty, lemma_split_occurs, occurs_in, split_pieces,
    starts_with,
};

verus! {

/// A text without `c` is a single piece.
proof fn lemma_split_without(s: Seq<char>, c: char)
    requires
        !occurs_in(s, seq![c]),
    ensures
        split_pieces(s, seq![c]) == seq![s],
    decreases s.len(),
{
    if s.len() > 0 {
        assert(!starts_with(s, seq![c]));
        lemma_split_without(s.drop_first(), c);
        assert(seq![s[0]] + s.drop_first() =~= s);
    }
}

/// A piece without `c`, then `c`, splits off that piece first.
proof fn lemma_split_first(a: Seq<char>, c: char, b: Seq<char>)
    requires
        !occurs_in(a, seq![c]),
    ensures
        split_pieces(a + seq![c] + b, seq![c]) == seq![a] + split_pieces(b, seq![c]),
    decreases a.len(),
{
    let s = a + seq![c] + b;
    if a.len() == 0 {
        assert(a =~= Seq::<char>::empty());
        assert(s =~= seq![c] + b);
        assert(s.take(1) =~= seq![c]);
        assert(s.skip(1) =~= b);
    } else {
        assert(!starts_with(a, seq![c]));
        assert(a.take(1) =~= seq![a[0]]);
        assert(a[0] != c);
        assert(s[0] == a[0]);
        assert(s.take(1) =~= seq![a[0]]);
        assert(s.take(1)[0] != c);
        assert(!starts_with(s, seq![c]));
        assert(s.drop_first() =~= a.drop_first() + seq![c] + b);
        lemma_split_first(a.drop_first(), c, b);
        lemma_split_nonempty(b, seq![c]);
        assert(seq![a[0]] + a.drop_first() =~= a);
        assert(split_pieces(s, seq![c]) =~= seq![a] + split_pieces(b, seq![c]));
    }
}

/// Joining from the front.
proof fn lemma_join_front(ss: Seq<Seq<char>>, sep: Seq<char>)
    requires
        ss.len() >= 2,
    ensures
        join(ss, sep) == ss[0] + sep + join(ss.drop_first(), sep),
    decreases ss.len(),
{
    if ss.len() == 2 {
        assert(ss.drop_last() =~= seq![ss[0]]);
        assert(ss.drop_first() =~= seq![ss[1]]);
        assert(join(seq![ss[0]], sep) == ss[0]);
        assert(join(seq![ss[1]], sep) == ss[1]);
        assert(join(ss, sep) == join(ss.drop_last(), sep) + sep + ss.last());
    } else {
        let dl = ss.drop_last();
        lemma_join_front(dl, sep);
        assert(dl.drop_first() =~= ss.drop_first().drop_last());
        assert(ss.drop_first().last() == ss.last());
        assert(dl[0] == ss[0]);
        assert(join(ss, sep) == join(dl, sep) + sep + ss.last());
        assert(join(ss.drop_first(), sep) == join(ss.drop_first().drop_last(), sep) + sep
            + ss.drop_first().last());
        assert(join(ss, sep) =~= ss[0] + sep + join(ss.drop_first(), sep));
    }
}

/// Splitting at a separator undoes joining with it: a list of one piece or
/// more, none of which holds the separator, comes back unchanged. (The
/// detail step joins file names and links with commas; the conversion
/// splits them again.)
pub proof fn law_split_undoes_join(ss: Seq<Seq<char>>, c: char)
    requires
        ss.len() >= 1,
        forall|i: int| 0 <= i < ss.len() ==> !occurs_in(#[trigger] ss[i], seq![c]),
    ensures
        split_pieces(join(ss, seq![c]), seq![c]) == ss,
    decreases ss.len(),
{
    if ss.len() == 1 {
        lemma_split_without(ss[0], c);
        assert(seq![ss[0]] =~= ss);
    } else {
        lemma_join_front(ss, seq![c]);
        let rest = ss.drop_first();
        assert forall|i: int| 0 <= i < rest.len() implies !occurs_in(#[trigger] rest[i], seq![c]) by {
            assert(rest[i] == ss[i + 1]);
        }
        law_split_undoes_join(rest, c);
        assert(!occurs_in(ss[0], seq![c]));
        lemma_split_first(ss[0], c, join(rest, seq![c]));
        assert(seq![ss[0]] + rest =~= ss);
    }
}

/// A detail row whose file names and links were joined with commas, as many
/// of each and none holding a comma, converts into one row per file: the
/// row itself with its category grouped and the `k`th name and link.
pub proof fn law_convert_detail_row(i: Info, names: Seq<Seq<char>>, links: Seq<Seq<char>>)
    requires
        names.len() >= 1,
        names.len() == links.len(),
        forall|k: int| 0 <= k < names.len() ==> !occurs_in(#[trigger] names[k], comma()),
        forall|k: int| 0 <= k < links.len() ==> !occurs_in(#[trigger] links[k], comma()),
        i.file_path@ == join(names, comma()),
        i.file_url@ == join(links, comma()),
    ensures
        converted_count(info_fields(i)) == names.len(),
        forall|k: int|
            0 <= k < names.len() ==> #[trigger] converted_fields(info_fields(i), k) == info_fields(
                i,
            ).update(1, normalize_category(i.category@)).update(15, names[k]).update(16, links[k]),
{
    law_split_undoes_join(names, ',');
    law_split_undoes_join(links, ',');
    assert forall|k: int| 0 <= k < names.len() implies #[trigger] converted_fields(
        info_fields(i),
        k,
    ) == info_fields(i).update(1, normalize_category(i.category@)).update(15, names[k]).update(
        16,
        links[k],
    ) by {
        assert(converted_fields(info_fields(i), k) =~= info_fields(i).update(
            1,
            normalize_category(i.category@),
        ).update(15, names[k]).update(16, links[k]));
    }
}

/// Turning the stand-ins back undoes replacing `&` by them, for a text
/// without the digit `9` (download link texts are escaped for the HTML
/// parser and restored afterwards).
pub proof fn law_restore_undoes_escape(s: Seq<char>)
    requires
        forall|i: int| 0 <= i < s.len() ==> s[i] != '9',
    ensures
        restore_spec(escape_spec(s)) == s,
    decreases s.len(),
{
    reveal_strlit("&");
    reveal_strlit("999999999");
    let amp: Seq<char> = "&"@;
    let mark = amp_mark();
    if s.len() > 0 {
        let rest = s.drop_first();
        assert forall|i: int| 0 <= i < rest.len() implies rest[i] != '9' by {
            assert(rest[i] == s[i + 1]);
        }
        law_restore_undoes_escape(rest);
        let x = escape_spec(rest);
        if starts_with(s, amp) {
            assert(s.skip(1) =~= rest);
            assert(escape_spec(s) == mark + x);
            assert((mark + x).take(9) =~= mark);
            assert((mark + x).skip(9) =~= x);
            assert(restore_spec(mark + x) == amp + restore_spec(x));
            assert(s.take(1) =~= amp);
            assert(amp + rest =~= s);
        } else {
            assert(escape_spec(s) == seq![s[0]] + x);
            let y = seq![s[0]] + x;
            assert(y[0] == s[0]);
            assert(!starts_with(y, mark)) by {
                if y.len() >= 9 {
                    assert(y.take(9)[0] == y[0]);
                    assert(mark[0] == '9');
                }
            }
            assert(y.drop_first() =~= x);
            assert(restore_spec(y) == seq![s[0]] + restore_spec(x));
            assert(seq![s[0]] + rest =~= s);
        }
    }
}

/// A digit's numeral is worth the digit.
proof fn lemma_digit_char(k: nat)
    requires
        k < 10,
    ensures
        is_digit(digit_char(k)),
        digit_char(k) as int - '0' as int == k,
{
}

/// The numeral of a number is a string of digits worth that number.
proof fn lemma_decimal_digits(n: nat)
    ensures
        all_digits(decimal(n)),
        digits_value(decimal(n)) == n,
    decreases n,
{
    if n < 10 {
        lemma_digit_char(n);
        assert(decimal(n).drop_last() =~= Seq::<char>::empty());
        assert(digits_value(decimal(n)) == digits_value(Seq::<char>::empty()) * 10 + (digit_char(n)
            as int - '0' as int));
    } else {
        lemma_digit_char(n % 10);
        lemma_decimal_digits(n / 10);
        let d = decimal(n / 10);
        assert(decimal(n).drop_last() =~= d);
        assert(decimal(n).last() == digit_char(n % 10));
        assert(digits_value(decimal(n)) == digits_value(d) * 10 + (digit_char(n % 10) as int
            - '0' as int));
        assert(n == (n / 10) * 10 + n % 10);
        assert forall|i: int| 0 <= i < decimal(n).len() implies is_digit(#[trigger] decimal(n)[i]) by {
            if i < d.len() {
                assert(decimal(n)[i] == d[i]);
            }
        }
    }
}

/// The last piece after a separator that the tail does not hold is the
/// tail.
proof fn lemma_split_last(x: Seq<char>, c: char, b: Seq<char>)
    requires
        !occurs_in(b, seq![c]),
    ensures
        split_pieces(x + seq![c] + b, seq![c]).last() == b,
    decreases x.len(),
{
    let s = x + seq![c] + b;
    if x.len() == 0 {
        assert(s =~= seq![c] + b);
        assert(s.take(1) =~= seq![c]);
        assert(s.skip(1) =~= b);
        lemma_split_without(b, c);
    } else if x[0] == c {
        assert(s.take(1) =~= seq![c]);
        assert(s.skip(1) =~= x.drop_first() + seq![c] + b);
        lemma_split_last(x.drop_first(), c, b);
        lemma_split_nonempty(s.skip(1), seq![c]);
    } else {
        assert(s.take(1) =~= seq![x[0]]);
        assert(s.drop_first() =~= x.drop_first() + seq![c] + b);
        lemma_split_last(x.drop_first(), c, b);
        assert(occurs_in(x.drop_first() + seq![c] + b, seq![c])) by {
            lemma_occurs_after(x.drop_first(), c, b);
        }
        lemma_split_occurs(s.drop_first(), seq![c]);
    }
}

/// `c` occurs in a text that holds it.
proof fn lemma_occurs_after(x: Seq<char>, c: char, b: Seq<char>)
    ensures
        occurs_in(x + seq![c] + b, seq![c]),
    decreases x.len(),
{
    let s = x + seq![c] + b;
    if x.len() == 0 {
        assert(s.take(1) =~= seq![c]);
    } else if !starts_with(s, seq![c]) {
        assert(s.drop_first() =~= x.drop_first() + seq![c] + b);
        lemma_occurs_after(x.drop_first(), c, b);
    }
}

/// A string of digits holds no `p`.
proof fn lemma_digits_no_p(s: Seq<char>)
    requires
        forall|i: int| 0 <= i < s.len() ==> is_digit(#[trigger] s[i]),
    ensures
        !occurs_in(s, seq!['p']),
    decreases s.len(),
{
    if s.len() > 0 {
        assert(is_digit(s[0]));
        assert(!starts_with(s, seq!['p'])) by {
            assert(s.take(1)[0] == s[0]);
        }
        let r = s.drop_first();
        assert forall|i: int| 0 <= i < r.len() implies is_digit(#[trigger] r[i]) by {
            assert(r[i] == s[i + 1]);
        }
        lemma_digits_no_p(r);
    }
}

/// The page number read from a page address that the crawler wrote is the
/// number it wrote there: reading a pager link undoes writing one.
pub proof fn law_page_number_read_back(prefix: Seq<char>, i: nat)
    requires
        prefix.len() > 0,
        prefix.last() == 'p',
    ensures
        int_literal_value(page_number_text(page_url(prefix, i))) == Some(i as int),
{
    lemma_decimal_digits(i);
    let d = decimal(i);
    lemma_digits_no_p(d);
    let x = site_root() + prefix.drop_last();
    assert(page_url(prefix, i) =~= x + seq!['p'] + d);
    lemma_split_last(x, 'p', d);
    assert(d[0] != '-' && d[0] != '+') by {
        assert(is_digit(d[0]));
    }
}

/// Replacing a character that a text lacks changes nothing.
proof fn lemma_replace_absent(s: Seq<char>, c: char, t: Seq<char>)
    requires
        lacks_char(s, c),
    ensures
        replace_all(s, seq![c], t) == s,
    decreases s.len(),
{
    if s.len() > 0 {
        assert(!starts_with(s, seq![c])) by {
            if starts_with(s, seq![c]) {
                assert(s.take(1)[0] == s[0]);
            }
        }
        let r = s.drop_first();
        assert forall|i: int| 0 <= i < r.len() implies r[i] != c by {
            assert(r[i] == s[i + 1]);
        }
        lemma_replace_absent(r, c, t);
        assert(seq![s[0]] + r =~= s);
    }
}

/// Removing `&` twice is removing it once.
pub proof fn law_strip_twice(s: Seq<char>)
    ensures
        replace_all(replace_all(s, "&"@, Seq::empty()), "&"@, Seq::empty()) == replace_all(
            s,
            "&"@,
            Seq::empty(),
        ),
{
    reveal_strlit("&");
    assert("&"@ =~= seq!['&']);
    lemma_replace_removes(s, '&', Seq::empty());
    lemma_replace_absent(replace_all(s, seq!['&'], Seq::empty()), '&', Seq::empty());
}

/// A page and the same page with `&` removed read alike: the same item links
/// (or the same failure) from a list page or a channel's first list page.
pub proof fn law_pages_read_alike_without_ampersands(
    url: Seq<char>,
    chanel: Seq<char>,
    content: Seq<char>,
)
    ensures
        list_page_spec(url, replace_all(content, "&"@, Seq::empty())) == list_page_spec(
            url,
            content,
        ),
        first_page_outcome(chanel, replace_all(content, "&"@, Seq::empty())) == first_page_outcome(
            chanel,
            content,
        ),
{
    law_strip_twice(content);
}

/// A list page that the crawler saved (a fetched page with `&` removed) reads
/// back as the fetched page did: where the fetched page has a list container,
/// the same item links (or the same failure); where it has none, no links.
pub proof fn law_saved_page_reads_as_fetched(url: Seq<char>, content: Seq<char>)
    ensures
        dom_at_found(stripped_root(content), container_spec(is_video_url(url)))
            ==> saved_list_page_spec(url, replace_all(content, "&"@, Seq::empty()))
            == list_page_spec(url, content),
        !dom_at_found(stripped_root(content), container_spec(is_video_url(url)))
            ==> saved_list_page_spec(url, replace_all(content, "&"@, Seq::empty()))
            == Ok::<Seq<Seq<char>>, Fault>(Seq::empty()),
{
    reveal_strlit("&");
    assert("&"@ =~= seq!['&']);
    lemma_replace_removes(content, '&', Seq::empty());
    lemma_no_references(replace_all(content, "&"@, Seq::empty()));
}

} // verus!
