//! Character-sequence operations with the semantics of the matching `str`
//! methods: prefix tests, search, left-to-right non-overlapping replacement
//! and splitting, and comma joining.

use vstd::prelude::*;

verus! {

// ---------------------------------------------------------------------------
// Specifications
// ---------------------------------------------------------------------------

/// `s` begins with `p` (`str::starts_with`).
pub open spec fn starts_with(s: Seq<char>, p: Seq<char>) -> bool {
    p.len() <= s.len() && s.take(p.len() as int) == p
}

/// `p` occurs somewhere in `s` (`str::contains`).
pub open spec fn occurs_in(s: Seq<char>, p: Seq<char>) -> bool
    decreases s.len(),
{
    if starts_with(s, p) {
        true
    } else if s.len() == 0 {
        false
    } else {
        occurs_in(s.drop_first(), p)
    }
}

/// Every occurrence of `p` in `s`, found left to right without overlap, is
/// replaced by `t` (`str::replace`, for a non-empty pattern).
pub open spec fn replace_all(s: Seq<char>, p: Seq<char>, t: Seq<char>) -> Seq<char>
    decreases s.len(),
{
    if p.len() == 0 || s.len() == 0 {
        s
    } else if starts_with(s, p) {
        t + replace_all(s.skip(p.len() as int), p, t)
    } else {
        seq![s[0]] + replace_all(s.drop_first(), p, t)
    }
}

/// The pieces of `s` between the occurrences of `p`, found left to right
/// without overlap (`str::split`, for a non-empty pattern).
pub open spec fn split_pieces(s: Seq<char>, p: Seq<char>) -> Seq<Seq<char>>
    decreases s.len(),
{
    if p.len() == 0 || s.len() == 0 {
        seq![s]
    } else if starts_with(s, p) {
        seq![Seq::<char>::empty()] + split_pieces(s.skip(p.len() as int), p)
    } else {
        let rest = split_pieces(s.drop_first(), p);
        rest.update(0, seq![s[0]] + rest[0])
    }
}

/// The pieces joined with `sep` between neighbours (`[String]::join`).
pub open spec fn join(ss: Seq<Seq<char>>, sep: Seq<char>) -> Seq<char>
    decreases ss.len(),
{
    if ss.len() == 0 {
        Seq::empty()
    } else if ss.len() == 1 {
        ss[0]
    } else {
        join(ss.drop_last(), sep) + sep + ss.last()
    }
}

/// The pieces, each followed by `sep`.
pub open spec fn terminate_each(ss: Seq<Seq<char>>, sep: Seq<char>) -> Seq<char>
    decreases ss.len(),
{
    if ss.len() == 0 {
        Seq::empty()
    } else {
        terminate_each(ss.drop_last(), sep) + ss.last() + sep
    }
}

/// The views of a sequence of owned strings.
pub open spec fn views(v: Seq<String>) -> Seq<Seq<char>> {
    v.map_values(|s: String| s@)
}

/// The views of a sequence of character vectors.
pub open spec fn char_views(v: Seq<Vec<char>>) -> Seq<Seq<char>> {
    v.map_values(|s: Vec<char>| s@)
}

/// The comma.
pub open spec fn comma() -> Seq<char> {
    seq![',']
}

// ---------------------------------------------------------------------------
// Lemmas
// ---------------------------------------------------------------------------

/// Splitting always yields at least one piece.
pub proof fn lemma_split_nonempty(s: Seq<char>, p: Seq<char>)
    ensures
        split_pieces(s, p).len() >= 1,
    decreases s.len(),
{
    if p.len() == 0 || s.len() == 0 {
    } else if starts_with(s, p) {
    } else {
        lemma_split_nonempty(s.drop_first(), p);
    }
}

/// A pattern that occurs splits its text into at least two pieces.
pub proof fn lemma_split_occurs(s: Seq<char>, p: Seq<char>)
    requires
        p.len() > 0,
        occurs_in(s, p),
    ensures
        split_pieces(s, p).len() >= 2,
    decreases s.len(),
{
    if starts_with(s, p) {
        lemma_split_nonempty(s.skip(p.len() as int), p);
    } else {
        lemma_split_occurs(s.drop_first(), p);
    }
}

/// No character of `s` is `c`.
pub open spec fn lacks_char(s: Seq<char>, c: char) -> bool {
    forall|i: int| 0 <= i < s.len() ==> s[i] != c
}

/// A text without the character `c` does not contain it as a pattern.
pub proof fn lemma_lacks_not_occurs(s: Seq<char>, c: char)
    requires
        lacks_char(s, c),
    ensures
        !occurs_in(s, seq![c]),
    decreases s.len(),
{
    if s.len() > 0 {
        assert(!starts_with(s, seq![c])) by {
            if starts_with(s, seq![c]) {
                assert(s.take(1)[0] == s[0]);
            }
        }
        let r = s.drop_first();
        assert forall|i: int| 0 <= i < r.len() implies r[i] != c by {
            assert(r[i] == s[i + 1]);
        }
        lemma_lacks_not_occurs(r, c);
    }
}

/// Replacing every `c` by a text without `c` leaves no `c`.
pub proof fn lemma_replace_removes(s: Seq<char>, c: char, t: Seq<char>)
    requires
        lacks_char(t, c),
    ensures
        lacks_char(replace_all(s, seq![c], t), c),
        !occurs_in(replace_all(s, seq![c], t), seq![c]),
    decreases s.len(),
{
    let p = seq![c];
    if s.len() > 0 {
        let r = replace_all(s, p, t);
        if starts_with(s, p) {
            lemma_replace_removes(s.skip(1), c, t);
            let rest = replace_all(s.skip(1), p, t);
            assert(r == t + rest);
            assert forall|i: int| 0 <= i < r.len() implies r[i] != c by {
                if i < t.len() {
                    assert(r[i] == t[i]);
                } else {
                    assert(r[i] == rest[i - t.len()]);
                }
            }
        } else {
            assert(s[0] != c) by {
                if s[0] == c {
                    assert(s.take(1) =~= p);
                }
            }
            lemma_replace_removes(s.drop_first(), c, t);
            let rest = replace_all(s.drop_first(), p, t);
            assert(r == seq![s[0]] + rest);
            assert forall|i: int| 0 <= i < r.len() implies r[i] != c by {
                if i > 0 {
                    assert(r[i] == rest[i - 1]);
                }
            }
        }
    }
    lemma_lacks_not_occurs(replace_all(s, p, t), c);
}

/// `c` is an ASCII letter, digit or underscore.
pub open spec fn is_ascii_word(c: char) -> bool {
    ('a' <= c && c <= 'z') || ('A' <= c && c <= 'Z') || ('0' <= c && c <= '9') || c == '_'
}

/// `c` is an ASCII character.
pub open spec fn is_ascii_char(c: char) -> bool {
    (c as u32) < 128
}

/// The characters after position `i` are ASCII up to and including the
/// first that is not an ASCII letter, digit or underscore: a character
/// reference starting at `i` has an ASCII name.
pub open spec fn ascii_name_after(s: Seq<char>, i: int) -> bool {
    forall|k: int|
        #![trigger s[k]]
        i < k < s.len() && (forall|m: int| i < m < k ==> is_ascii_word(#[trigger] s[m]))
            ==> is_ascii_char(s[k])
}

/// Every `&` of `s` begins a reference with an ASCII name.
pub open spec fn ascii_references(s: Seq<char>) -> bool {
    forall|i: int| 0 <= i < s.len() && s[i] == '&' ==> #[trigger] ascii_name_after(s, i)
}

/// A text without `&` has no character references.
pub proof fn lemma_no_references(s: Seq<char>)
    requires
        lacks_char(s, '&'),
    ensures
        ascii_references(s),
{
}

// ---------------------------------------------------------------------------
// Executable operations
// ---------------------------------------------------------------------------

/// The characters of a string slice, in order.
pub fn chars_of(s: &str) -> (v: Vec<char>)
    ensures
        v@ == s@,
{
    let mut v: Vec<char> = Vec::new();
    for c in it: s.chars()
        invariant
            v@ == it.seq().take(it.index() as int),
            it.seq() == s@,
    {
        v.push(c);
    }
    v
}

/// Collects characters into an owned `String` (std's `FromIterator<&char>`
/// for `String`); the result holds exactly the given characters.
#[verifier::external_body]
pub fn string_from(v: &[char]) -> (s: String)
    ensures
        s@ == v@,
{
    v.iter().collect()
}

/// Appends the characters of `t` to `out`.
pub fn push_all(out: &mut Vec<char>, t: &[char])
    ensures
        final(out)@ == old(out)@ + t@,
{
    let ghost start = out@;
    let mut j: usize = 0;
    while j < t.len()
        invariant
            j <= t.len(),
            out@ == start + t@.take(j as int),
        decreases t.len() - j,
    {
        out.push(t[j]);
        j = j + 1;
        assert(out@ =~= start + t@.take(j as int));
    }
    assert(t@.take(t.len() as int) =~= t@);
}

/// Whether `p` occurs in `s` at position `i`.
pub fn matches_at(s: &[char], i: usize, p: &[char]) -> (b: bool)
    requires
        i <= s@.len(),
    ensures
        b == starts_with(s@.skip(i as int), p@),
{
    if p.len() > s.len() - i {
        return false;
    }
    let mut j: usize = 0;
    while j < p.len()
        invariant
            j <= p.len(),
            i + p.len() <= s.len(),
            forall|k: int| 0 <= k < j ==> s@[i + k] == p@[k],
        decreases p.len() - j,
    {
        if s[i + j] != p[j] {
            assert(s@.skip(i as int).take(p.len() as int)[j as int] != p@[j as int]);
            return false;
        }
        j = j + 1;
    }
    assert(s@.skip(i as int).take(p.len() as int) =~= p@);
    true
}

/// Whether `s` begins with `p` (`str::starts_with`).
pub fn starts_with_exec(s: &[char], p: &[char]) -> (b: bool)
    ensures
        b == starts_with(s@, p@),
{
    assert(s@.skip(0) =~= s@);
    matches_at(s, 0, p)
}

/// Whether `p` occurs in `s` (`str::contains`).
pub fn contains(s: &[char], p: &[char]) -> (b: bool)
    ensures
        b == occurs_in(s@, p@),
{
    let mut i: usize = 0;
    assert(s@.skip(0) =~= s@);
    while i < s.len()
        invariant
            i <= s.len(),
            occurs_in(s@, p@) == occurs_in(s@.skip(i as int), p@),
        decreases s.len() - i,
    {
        if matches_at(s, i, p) {
            return true;
        }
        assert(s@.skip(i as int).drop_first() =~= s@.skip(i + 1));
        i = i + 1;
    }
    let ghost rest = s@.skip(i as int);
    assert(rest.len() == 0);
    matches_at(s, i, p)
}

/// Replaces every occurrence of `p` in `s`, left to right without overlap,
/// by `t` (`str::replace`).
pub fn replace(s: &[char], p: &[char], t: &[char]) -> (r: Vec<char>)
    requires
        p@.len() > 0,
    ensures
        r@ == replace_all(s@, p@, t@),
{
    let mut out: Vec<char> = Vec::new();
    let mut i: usize = 0;
    assert(s@.skip(0) =~= s@);
    while i < s.len()
        invariant
            i <= s.len(),
            p@.len() > 0,
            out@ + replace_all(s@.skip(i as int), p@, t@) == replace_all(s@, p@, t@),
        decreases s.len() - i,
    {
        let ghost rest = s@.skip(i as int);
        if matches_at(s, i, p) {
            assert(rest.skip(p@.len() as int) =~= s@.skip(i + p@.len()));
            push_all(&mut out, t);
            i = i + p.len();
        } else {
            assert(rest.drop_first() =~= s@.skip(i + 1));
            out.push(s[i]);
            i = i + 1;
        }
    }
    assert(s@.skip(i as int).len() == 0);
    assert(out@ + Seq::<char>::empty() =~= out@);
    out
}

/// The sequence `xs` whose first piece is extended at the front by `c`.
pub open spec fn prepend_first(c: Seq<char>, xs: Seq<Seq<char>>) -> Seq<Seq<char>> {
    xs.update(0, c + xs[0])
}

/// Splits `s` at the occurrences of `p`, left to right without overlap
/// (`str::split`).
pub fn split(s: &[char], p: &[char]) -> (r: Vec<Vec<char>>)
    requires
        p@.len() > 0,
    ensures
        char_views(r@) == split_pieces(s@, p@),
{
    let mut pieces: Vec<Vec<char>> = Vec::new();
    let mut cur: Vec<char> = Vec::new();
    let mut i: usize = 0;
    assert(s@.skip(0) =~= s@);
    assert(prepend_first(Seq::empty(), split_pieces(s@, p@)) =~= split_pieces(s@, p@)) by {
        lemma_split_nonempty(s@, p@);
        assert(Seq::<char>::empty() + split_pieces(s@, p@)[0] =~= split_pieces(s@, p@)[0]);
    }
    while i < s.len()
        invariant
            i <= s.len(),
            p@.len() > 0,
            char_views(pieces@) + prepend_first(cur@, split_pieces(s@.skip(i as int), p@))
                == split_pieces(s@, p@),
        decreases s.len() - i,
    {
        let ghost rest = s@.skip(i as int);
        let ghost old_pieces = pieces@;
        let ghost old_cur = cur@;
        if matches_at(s, i, p) {
            let ghost tail = split_pieces(s@.skip(i + p@.len()), p@);
            assert(rest.skip(p@.len() as int) =~= s@.skip(i + p@.len()));
            proof {
                lemma_split_nonempty(s@.skip(i + p@.len()), p@);
            }
            assert(split_pieces(rest, p@) == seq![Seq::<char>::empty()] + tail);
            pieces.push(cur);
            cur = Vec::new();
            assert(char_views(pieces@) =~= char_views(old_pieces).push(old_cur));
            assert(prepend_first(old_cur, seq![Seq::<char>::empty()] + tail) =~= seq![old_cur]
                + prepend_first(Seq::empty(), tail)) by {
                assert(old_cur + Seq::<char>::empty() =~= old_cur);
                assert(Seq::<char>::empty() + tail[0] =~= tail[0]);
            }
            assert(char_views(pieces@) + prepend_first(cur@, tail) =~= char_views(old_pieces)
                + prepend_first(old_cur, seq![Seq::<char>::empty()] + tail));
            i = i + p.len();
        } else {
            let ghost tail = split_pieces(s@.skip(i + 1), p@);
            assert(rest.drop_first() =~= s@.skip(i + 1));
            proof {
                lemma_split_nonempty(s@.skip(i + 1), p@);
            }
            let c = s[i];
            assert(rest[0] == c);
            assert(split_pieces(rest, p@) == prepend_first(seq![c], tail));
            cur.push(c);
            assert(old_cur + (seq![c] + tail[0]) =~= cur@ + tail[0]);
            assert(prepend_first(old_cur, prepend_first(seq![c], tail)) =~= prepend_first(
                cur@,
                tail,
            ));
            i = i + 1;
        }
    }
    assert(s@.skip(i as int) =~= Seq::<char>::empty());
    let ghost last = cur@;
    pieces.push(cur);
    assert(prepend_first(last, seq![Seq::<char>::empty()]) =~= seq![last]) by {
        assert(last + Seq::<char>::empty() =~= last);
    }
    assert(char_views(pieces@) =~= split_pieces(s@, p@));
    pieces
}

/// Joins the pieces with commas between neighbours; the empty list gives the
/// empty string.
pub fn to_string(d: &Vec<String>) -> (s: String)
    ensures
        s@ == join(views(d@), comma()),
{
    let mut out: Vec<char> = Vec::new();
    let mut i: usize = 0;
    while i < d.len()
        invariant
            i <= d.len(),
            out@ == join(views(d@).take(i as int), comma()),
        decreases d.len() - i,
    {
        let piece = chars_of(d[i].as_str());
        let ghost before = out@;
        if i > 0 {
            out.push(',');
        }
        push_all(&mut out, piece.as_slice());
        proof {
            let ss = views(d@).take(i + 1);
            assert(ss.drop_last() =~= views(d@).take(i as int));
            if i > 0 {
                assert(out@ =~= before + comma() + piece@);
            } else {
                assert(ss =~= seq![piece@]);
                assert(out@ =~= piece@);
            }
        }
        i = i + 1;
    }
    assert(views(d@).take(d.len() as int) =~= views(d@));
    string_from(out.as_slice())
}

/// Writes every piece followed by a comma.
pub fn to_string1(d: &Vec<&str>) -> (s: String)
    ensures
        s@ == terminate_each(d@.map_values(|x: &str| x@), comma()),
{
    let ghost vs = d@.map_values(|x: &str| x@);
    let mut out: Vec<char> = Vec::new();
    let mut i: usize = 0;
    while i < d.len()
        invariant
            i <= d.len(),
            vs == d@.map_values(|x: &str| x@),
            out@ == terminate_each(vs.take(i as int), comma()),
        decreases d.len() - i,
    {
        let piece = chars_of(d[i]);
        push_all(&mut out, piece.as_slice());
        out.push(',');
        assert(vs.take(i + 1).drop_last() =~= vs.take(i as int));
        i = i + 1;
    }
    assert(vs.take(d.len() as int) =~= vs);
    string_from(out.as_slice())
}

/// Whether every `&` of `s` begins a reference with an ASCII name (see
/// [`ascii_references`]).
pub fn references_ascii(s: &[char]) -> (b: bool)
    ensures
        b == ascii_references(s@),
{
    let mut i: usize = 0;
    while i < s.len()
        invariant
            i <= s.len(),
            forall|i2: int| 0 <= i2 < i && s@[i2] == '&' ==> #[trigger] ascii_name_after(s@, i2),
        decreases s.len() - i,
    {
        if s[i] == '&' {
            let mut j: usize = i + 1;
            while j < s.len() && is_word_char(s[j])
                invariant
                    i < j <= s.len(),
                    forall|m: int| i < m < j ==> is_ascii_word(#[trigger] s@[m]),
                decreases s.len() - j,
            {
                j = j + 1;
            }
            let ok = j == s.len() || (s[j] as u32) < 128;
            if !ok {
                assert(!ascii_name_after(s@, i as int)) by {
                    assert(!is_ascii_char(s@[j as int]));
                }
                return false;
            }
            assert(ascii_name_after(s@, i as int)) by {
                assert forall|k: int|
                    #![trigger s@[k]]
                    i < k < s@.len() && (forall|m: int| i < m < k ==> is_ascii_word(#[trigger] s@[m]))
                        implies is_ascii_char(s@[k]) by {
                    if k > j {
                        assert(is_ascii_word(s@[j as int]));
                    } else if k < j {
                        assert(is_ascii_word(s@[k]));
                    }
                }
            }
        }
        i = i + 1;
    }
    true
}

/// Whether `c` is an ASCII letter, digit or underscore.
fn is_word_char(c: char) -> (b: bool)
    ensures
        b == is_ascii_word(c),
{
    ('a' <= c && c <= 'z') || ('A' <= c && c <= 'Z') || ('0' <= c && c <= '9') || c == '_'
}

} // verus!
