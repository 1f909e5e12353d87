//! Properties of the catalogue entry that a detail page gives: which
//! download list is opened, which field blocks fill which columns, which
//! items of a download list and of `#cpage` are read, and how categories
//! are grouped when the table is converted.

use vstd::prelude::*;
use crate::detail_page::{
    actor_spec, addresses_read, detail_read, block_kind, block_value, detail_fields, downloads_read, entry_links,
    entry_read, entry_texts, field_value, item_spans, label_kind, named_items, restored, unwrapped,
    DetailPage, DownloadEntry, FieldBlock, SpanText,
};
use crate::fault::{opt_view, opt_views};
use crate::dom::{
    at_node, child_node, dom_at_found, dom_childs_len, dom_find_len, dom_text_of, found_node,
    found_texts, NodeAddr,
};
use crate::details::download_page_spec;
use crate::info::{converted_fields, info_fields, normalize_category, Info};
use crate::text::{comma, join, starts_with, views};

verus! {

/// The download list follows the most preferred kind that the detail page
/// offers: the tablet list (`/bd-1`) whenever some kind begins with 平板,
/// else the phone list (`/hd-1`) whenever one begins with 手机, else the
/// small MP4 list (`/mp4-1`), else the television list (`/bt-1`); with none
/// of these, the page address itself. The page address does not depend on
/// the kinds, and for a page read from the site (`tt` 0) it is the address
/// given.
pub proof fn law_download_list_by_preference(url: Seq<char>, tt: i32, addrs: Seq<Seq<char>>)
    ensures
        download_page_spec(url, 0, Seq::empty()) == url,
        (exists|i: int| 0 <= i < addrs.len() && starts_with(#[trigger] addrs[i], "平板"@))
            ==> download_page_spec(url, tt, addrs) == download_page_spec(url, tt, Seq::empty())
            + "/bd-1"@,
        (forall|i: int| 0 <= i < addrs.len() ==> !starts_with(#[trigger] addrs[i], "平板"@)) && (
        exists|i: int| 0 <= i < addrs.len() && starts_with(#[trigger] addrs[i], "手机"@))
            ==> download_page_spec(url, tt, addrs) == download_page_spec(url, tt, Seq::empty())
            + "/hd-1"@,
        (forall|i: int|
            0 <= i < addrs.len() ==> !starts_with(#[trigger] addrs[i], "平板"@) && !starts_with(
                addrs[i],
                "手机"@,
            )) && (exists|i: int| 0 <= i < addrs.len() && starts_with(#[trigger] addrs[i], "小MP4"@))
            ==> download_page_spec(url, tt, addrs) == download_page_spec(url, tt, Seq::empty())
            + "/mp4-1"@,
        (forall|i: int|
            0 <= i < addrs.len() ==> !starts_with(#[trigger] addrs[i], "平板"@) && !starts_with(
                addrs[i],
                "手机"@,
            ) && !starts_with(addrs[i], "小MP4"@)) && (exists|i: int|
            0 <= i < addrs.len() && starts_with(#[trigger] addrs[i], "电视"@))
            ==> download_page_spec(url, tt, addrs) == download_page_spec(url, tt, Seq::empty())
            + "/bt-1"@,
        (forall|i: int|
            0 <= i < addrs.len() ==> !starts_with(#[trigger] addrs[i], "平板"@) && !starts_with(
                addrs[i],
                "手机"@,
            ) && !starts_with(addrs[i], "小MP4"@) && !starts_with(addrs[i], "电视"@))
            ==> download_page_spec(url, tt, addrs) == download_page_spec(url, tt, Seq::empty()),
{
    let base = download_page_spec(url, tt, Seq::empty());
    assert(base + Seq::<char>::empty() =~= base);
    assert(url + Seq::<char>::empty() =~= url);
    let b = if tt != 0 {
        crate::text::replace_all(url, "data/"@, crate::pages::site_root())
    } else {
        url
    };
    assert(b + Seq::<char>::empty() =~= b);
}

/// Converting a data row groups films (电影) and series (电视剧) as 影视 and
/// short videos (视频短剧) and courses (公开课) as 短片, and keeps every other
/// category (such as 综艺 or 动漫) as it is; the other columns before the file
/// name are kept too, in every file row of the conversion.
pub proof fn law_category_grouping(record: Seq<Seq<char>>, k: int)
    requires
        record.len() >= 17,
    ensures
        (record[1] == "电影"@ || record[1] == "电视剧"@) ==> normalize_category(record[1]) == "影视"@
            && converted_fields(record, k)[1] == "影视"@,
        (record[1] == "视频短剧"@ || record[1] == "公开课"@) ==> normalize_category(record[1])
            == "短片"@ && converted_fields(record, k)[1] == "短片"@,
        (record[1] != "电影"@ && record[1] != "电视剧"@ && record[1] != "视频短剧"@ && record[1]
            != "公开课"@) ==> normalize_category(record[1]) == record[1] && converted_fields(
            record,
            k,
        )[1] == record[1],
        forall|j: int| 0 <= j < 15 && j != 1 ==> #[trigger] converted_fields(record, k)[j] == record[j],
{
    reveal_strlit("电影");
    reveal_strlit("电视剧");
    reveal_strlit("视频短剧");
    reveal_strlit("公开课");
    assert("视频短剧"@.len() != "电影"@.len() && "视频短剧"@.len() != "电视剧"@.len());
    assert("公开课"@.len() != "电影"@.len());
    assert("公开课"@[0] != "电视剧"@[0]);
}

/// The block's label begins with `t`.
pub open spec fn labelled(b: FieldBlock, t: Seq<char>) -> bool {
    b.label matches Some(l) && starts_with(l@, t)
}

/// `v` is the value that the blocks give for the field whose blocks `p`
/// picks: that of the last such block, or 未知 when there is none.
pub open spec fn from_last_block(blocks: Seq<FieldBlock>, p: spec_fn(FieldBlock) -> bool, v: Seq<char>) -> bool {
    &&& (forall|i: int| 0 <= i < blocks.len() ==> !p(#[trigger] blocks[i])) ==> v == "未知"@
    &&& forall|j: int|
        0 <= j < blocks.len() && p(#[trigger] blocks[j]) && (forall|i: int|
            j < i < blocks.len() ==> !p(#[trigger] blocks[i])) ==> v == block_value(blocks[j])
}

/// A text that begins with a non-empty `t` begins with `t`'s first character.
proof fn lemma_first_char(l: Seq<char>, t: Seq<char>)
    requires
        t.len() > 0,
        starts_with(l, t),
    ensures
        l.len() > 0,
        l[0] == t[0],
{
    assert(l.take(t.len() as int)[0] == l[0]);
}

/// A label names the field whose word it begins with; the words begin with
/// distinct characters.
proof fn lemma_label_words(l: Seq<char>)
    ensures
        starts_with(l, "类型"@) ==> label_kind(l) == 1,
        starts_with(l, "地区"@) ==> label_kind(l) == 2,
        starts_with(l, "语言"@) ==> label_kind(l) == 3,
        starts_with(l, "年代"@) || starts_with(l, "上映日期"@) ==> label_kind(l) == 4,
        starts_with(l, "片长"@) ==> label_kind(l) == 5,
        starts_with(l, "豆瓣评分"@) ==> label_kind(l) == 6,
        starts_with(l, "导演"@) ==> label_kind(l) == 7,
{
    reveal_strlit("类型");
    reveal_strlit("地区");
    reveal_strlit("语言");
    reveal_strlit("年代");
    reveal_strlit("上映日期");
    reveal_strlit("片长");
    reveal_strlit("豆瓣评分");
    reveal_strlit("导演");
    if starts_with(l, "类型"@) {
        lemma_first_char(l, "类型"@);
    }
    if starts_with(l, "地区"@) {
        lemma_first_char(l, "地区"@);
    }
    if starts_with(l, "语言"@) {
        lemma_first_char(l, "语言"@);
    }
    if starts_with(l, "年代"@) {
        lemma_first_char(l, "年代"@);
    }
    if starts_with(l, "上映日期"@) {
        lemma_first_char(l, "上映日期"@);
    }
    if starts_with(l, "片长"@) {
        lemma_first_char(l, "片长"@);
    }
    if starts_with(l, "豆瓣评分"@) {
        lemma_first_char(l, "豆瓣评分"@);
    }
    if starts_with(l, "导演"@) {
        lemma_first_char(l, "导演"@);
    }
}

/// The value of a field is that of the last block that gives it.
proof fn lemma_field_value_last(blocks: Seq<FieldBlock>, kind: nat, p: spec_fn(FieldBlock) -> bool)
    requires
        forall|b: FieldBlock| #![trigger p(b)] p(b) <==> block_kind(b) == kind,
    ensures
        from_last_block(blocks, p, field_value(blocks, kind)),
    decreases blocks.len(),
{
    reveal_strlit("未知");
    if blocks.len() > 0 {
        let rest = blocks.drop_last();
        let n = blocks.len() - 1;
        lemma_field_value_last(rest, kind, p);
        assert forall|j: int|
            0 <= j < blocks.len() && p(#[trigger] blocks[j]) && (forall|i: int|
                j < i < blocks.len() ==> !p(#[trigger] blocks[i])) implies field_value(blocks, kind)
            == block_value(blocks[j]) by {
            if p(blocks[n]) {
                assert(j == n);
            } else {
                assert(j < n);
                assert(rest[j] == blocks[j]);
                assert forall|i: int| j < i < rest.len() implies !p(#[trigger] rest[i]) by {
                    assert(rest[i] == blocks[i]);
                }
            }
        }
        if forall|i: int| 0 <= i < blocks.len() ==> !p(#[trigger] blocks[i]) {
            assert(!p(blocks[n]));
            assert forall|i: int| 0 <= i < rest.len() implies !p(#[trigger] rest[i]) by {
                assert(rest[i] == blocks[i]);
            }
        }
    }
}

/// The entry assembled from a detail page takes each labelled column from
/// the last field block whose label names it, and is 未知 where no block
/// does: type from 类型, area from 地区, language from 语言, year from 年代
/// or 上映日期, length from 片长, rating from 豆瓣评分, director from 导演.
pub proof fn law_entry_fields_follow_labels(
    url: Seq<char>,
    category: Seq<char>,
    p: DetailPage,
    es: Seq<DownloadEntry>,
    i: Info,
)
    requires
        p.info is Some,
        info_fields(i) == detail_fields(url, category, p, es),
    ensures
        from_last_block(p.info.unwrap().fields@, (|b: FieldBlock| labelled(b, "类型"@)), i.types@),
        from_last_block(p.info.unwrap().fields@, (|b: FieldBlock| labelled(b, "地区"@)), i.area@),
        from_last_block(p.info.unwrap().fields@, (|b: FieldBlock| labelled(b, "语言"@)), i.language@),
        from_last_block(
            p.info.unwrap().fields@,
            (|b: FieldBlock| labelled(b, "年代"@) || labelled(b, "上映日期"@)),
            i.year@,
        ),
        from_last_block(p.info.unwrap().fields@, (|b: FieldBlock| labelled(b, "片长"@)), i.length@),
        from_last_block(p.info.unwrap().fields@, (|b: FieldBlock| labelled(b, "豆瓣评分"@)), i.duban@),
        from_last_block(p.info.unwrap().fields@, (|b: FieldBlock| labelled(b, "导演"@)), i.director@),
{
    let fields = p.info.unwrap().fields@;
    let f = info_fields(i);
    assert(f[3] == i.year@ && f[4] == i.area@ && f[5] == i.types@ && f[6] == i.language@);
    assert(f[7] == i.length@ && f[8] == i.director@ && f[10] == i.duban@);
    assert forall|b: FieldBlock| labelled(b, "类型"@) <==> #[trigger] block_kind(b) == 1 by {
        if let Some(l) = b.label {
            lemma_label_words(l@);
        }
    }
    assert forall|b: FieldBlock| labelled(b, "地区"@) <==> #[trigger] block_kind(b) == 2 by {
        if let Some(l) = b.label {
            lemma_label_words(l@);
        }
    }
    assert forall|b: FieldBlock| labelled(b, "语言"@) <==> #[trigger] block_kind(b) == 3 by {
        if let Some(l) = b.label {
            lemma_label_words(l@);
        }
    }
    assert forall|b: FieldBlock|
        labelled(b, "年代"@) || labelled(b, "上映日期"@) <==> #[trigger] block_kind(b) == 4 by {
        if let Some(l) = b.label {
            lemma_label_words(l@);
        }
    }
    assert forall|b: FieldBlock| labelled(b, "片长"@) <==> #[trigger] block_kind(b) == 5 by {
        if let Some(l) = b.label {
            lemma_label_words(l@);
        }
    }
    assert forall|b: FieldBlock| labelled(b, "豆瓣评分"@) <==> #[trigger] block_kind(b) == 6 by {
        if let Some(l) = b.label {
            lemma_label_words(l@);
        }
    }
    assert forall|b: FieldBlock| labelled(b, "导演"@) <==> #[trigger] block_kind(b) == 7 by {
        if let Some(l) = b.label {
            lemma_label_words(l@);
        }
    }
    lemma_field_value_last(fields, 1, |b: FieldBlock| labelled(b, "类型"@));
    lemma_field_value_last(fields, 2, |b: FieldBlock| labelled(b, "地区"@));
    lemma_field_value_last(fields, 3, |b: FieldBlock| labelled(b, "语言"@));
    lemma_field_value_last(
        fields,
        4,
        |b: FieldBlock| labelled(b, "年代"@) || labelled(b, "上映日期"@),
    );
    lemma_field_value_last(fields, 5, |b: FieldBlock| labelled(b, "片长"@));
    lemma_field_value_last(fields, 6, |b: FieldBlock| labelled(b, "豆瓣评分"@));
    lemma_field_value_last(fields, 7, |b: FieldBlock| labelled(b, "导演"@));
}

/// The `span` texts of each of the first `n` items of `ul`.
spec fn spans_by_item(ul: NodeAddr, n: nat) -> Seq<Seq<Seq<char>>> {
    Seq::new(n, |k: int| found_texts(child_node(ul, k), "span"@))
}

/// Reading items one after another concatenates their span texts.
proof fn lemma_item_spans_flatten(ul: NodeAddr, n: nat)
    ensures
        item_spans(ul, n) == spans_by_item(ul, n).flatten_alt(),
    decreases n,
{
    if n > 0 {
        lemma_item_spans_flatten(ul, (n - 1) as nat);
        assert(spans_by_item(ul, n).drop_last() =~= spans_by_item(ul, (n - 1) as nat));
    }
}

/// Items of one span each give one text per item.
proof fn lemma_item_spans_single(ul: NodeAddr, n: nat)
    requires
        forall|k: int| 0 <= k < n ==> dom_find_len(#[trigger] child_node(ul, k), "span"@) == 1,
    ensures
        item_spans(ul, n).len() == n,
        forall|k: int|
            0 <= k < n ==> #[trigger] item_spans(ul, n)[k] == dom_text_of(
                found_node(child_node(ul, k), "span"@, 0),
            ),
    decreases n,
{
    if n > 0 {
        let m = (n - 1) as nat;
        lemma_item_spans_single(ul, m);
        assert(dom_find_len(child_node(ul, m as int), "span"@) == 1);
        assert forall|k: int| 0 <= k < n implies #[trigger] item_spans(ul, n)[k] == dom_text_of(
            found_node(child_node(ul, k), "span"@, 0),
        ) by {
            if k < m {
                assert(item_spans(ul, n)[k] == item_spans(ul, m)[k]);
            } else {
                assert(item_spans(ul, n)[k] == found_texts(child_node(ul, m as int), "span"@)[0]);
            }
        }
    }
}

/// The kinds of download read from a detail page are the `span` texts of
/// every item of `#cpage`, item after item: all items are read, none
/// skipped. So items of one `span` each give one kind per item, in order.
pub proof fn law_download_kinds_from_every_item(root: NodeAddr, p: DetailPage)
    requires
        addresses_read(root, p.addresses@),
        dom_at_found(root, "#cpage"@),
    ensures
        views(p.addresses@) == Seq::new(
            dom_childs_len(at_node(root, "#cpage"@)),
            |k: int| found_texts(child_node(at_node(root, "#cpage"@), k), "span"@),
        ).flatten(),
        (forall|k: int|
            0 <= k < dom_childs_len(at_node(root, "#cpage"@)) ==> dom_find_len(
                #[trigger] child_node(at_node(root, "#cpage"@), k),
                "span"@,
            ) == 1) ==> {
            &&& p.addresses@.len() == dom_childs_len(at_node(root, "#cpage"@))
            &&& forall|k: int|
                0 <= k < p.addresses@.len() ==> #[trigger] p.addresses@[k]@ == dom_text_of(
                    found_node(child_node(at_node(root, "#cpage"@), k), "span"@, 0),
                )
        },
{
    let ul = at_node(root, "#cpage"@);
    let n = dom_childs_len(ul);
    lemma_item_spans_flatten(ul, n);
    spans_by_item(ul, n).lemma_flatten_and_flatten_alt_are_equivalent();
    assert(spans_by_item(ul, n) =~= Seq::new(n, |k: int| found_texts(child_node(ul, k), "span"@)));
    if forall|k: int| 0 <= k < n ==> dom_find_len(#[trigger] child_node(ul, k), "span"@) == 1 {
        lemma_item_spans_single(ul, n);
        assert forall|k: int| 0 <= k < p.addresses@.len() implies #[trigger] p.addresses@[k]@
            == dom_text_of(found_node(child_node(ul, k), "span"@, 0)) by {
            assert(views(p.addresses@)[k] == p.addresses@[k]@);
        }
    }
}

/// The item has a `[class=dlname nm]` element.
pub open spec fn has_name(item: NodeAddr) -> bool {
    dom_at_found(item, "[class=dlname nm]"@)
}

/// The positions of the items among the first `n` of `ul` that have a name
/// element.
spec fn named_positions(ul: NodeAddr, n: nat) -> Seq<int>
    decreases n,
{
    if n == 0 {
        Seq::empty()
    } else {
        named_positions(ul, (n - 1) as nat) + if has_name(child_node(ul, n - 1)) {
            seq![n - 1]
        } else {
            Seq::empty()
        }
    }
}

/// `idx` lists, in increasing order, exactly the positions below `n` of the
/// items of `ul` that have a name element.
pub open spec fn lists_named_items(ul: NodeAddr, n: nat, idx: Seq<int>) -> bool {
    &&& forall|k: int| 0 <= k < idx.len() ==> 0 <= #[trigger] idx[k] < n && has_name(child_node(ul, idx[k]))
    &&& forall|a: int, b: int| 0 <= a < b < idx.len() ==> #[trigger] idx[a] < #[trigger] idx[b]
    &&& forall|i: int|
        0 <= i < n && #[trigger] has_name(child_node(ul, i)) ==> exists|k: int|
            0 <= k < idx.len() && #[trigger] idx[k] == i
}

/// The named items read so far are those at [`named_positions`].
proof fn lemma_named_positions(ul: NodeAddr, n: nat)
    ensures
        lists_named_items(ul, n, named_positions(ul, n)),
        named_positions(ul, n).len() == named_items(ul, n).len(),
        forall|k: int|
            0 <= k < named_items(ul, n).len() ==> #[trigger] named_items(ul, n)[k] == at_node(
                child_node(ul, named_positions(ul, n)[k]),
                "[class=dlname nm]"@,
            ),
    decreases n,
{
    if n > 0 {
        let m = (n - 1) as nat;
        lemma_named_positions(ul, m);
        let prev = named_positions(ul, m);
        let idx = named_positions(ul, n);
        let items = named_items(ul, n);
        if has_name(child_node(ul, m as int)) {
            assert(idx == prev.push(m as int));
            assert(items == named_items(ul, m).push(
                at_node(child_node(ul, m as int), "[class=dlname nm]"@),
            ));
            assert forall|i: int| 0 <= i < n && #[trigger] has_name(child_node(ul, i)) implies exists|k: int|
                0 <= k < idx.len() && #[trigger] idx[k] == i by {
                if i < m {
                    let k = choose|k: int| 0 <= k < prev.len() && #[trigger] prev[k] == i;
                    assert(idx[k] == prev[k]);
                } else {
                    assert(idx[prev.len() as int] == i);
                }
            }
            assert forall|k: int| 0 <= k < items.len() implies #[trigger] items[k] == at_node(
                child_node(ul, idx[k]),
                "[class=dlname nm]"@,
            ) by {
                if k < prev.len() {
                    assert(items[k] == named_items(ul, m)[k]);
                    assert(idx[k] == prev[k]);
                }
            }
            assert forall|a: int, b: int| 0 <= a < b < idx.len() implies #[trigger] idx[a]
                < #[trigger] idx[b] by {
                assert(idx[a] == prev[a]);
                if b < prev.len() {
                    assert(idx[b] == prev[b]);
                }
            }
            assert forall|k: int| 0 <= k < idx.len() implies 0 <= #[trigger] idx[k] < n && has_name(
                child_node(ul, idx[k]),
            ) by {
                if k < prev.len() {
                    assert(idx[k] == prev[k]);
                }
            }
        } else {
            assert(idx =~= prev);
            assert(items =~= named_items(ul, m));
            assert forall|i: int| 0 <= i < n && #[trigger] has_name(child_node(ul, i)) implies exists|k: int|
                0 <= k < idx.len() && #[trigger] idx[k] == i by {
                assert(i < m);
            }
        }
    }
}

/// When every item has a name element, the named items are all items.
proof fn lemma_all_named(ul: NodeAddr, n: nat)
    requires
        forall|i: int| 0 <= i < n ==> #[trigger] has_name(child_node(ul, i)),
    ensures
        named_items(ul, n).len() == n,
        forall|k: int|
            0 <= k < n ==> #[trigger] named_items(ul, n)[k] == at_node(
                child_node(ul, k),
                "[class=dlname nm]"@,
            ),
    decreases n,
{
    if n > 0 {
        let m = (n - 1) as nat;
        lemma_all_named(ul, m);
        assert(has_name(child_node(ul, m as int)));
        assert forall|k: int| 0 <= k < n implies #[trigger] named_items(ul, n)[k] == at_node(
            child_node(ul, k),
            "[class=dlname nm]"@,
        ) by {
            if k < m {
                assert(named_items(ul, n)[k] == named_items(ul, m)[k]);
            }
        }
    }
}

/// A download list gives one entry per item of `[class=dllist1]` that has a
/// `[class=dlname nm]` element, in the items' order, each read from that
/// element; items without one give none, and no named item is skipped. So a
/// list whose items all have one (the episodes of a series) gives one entry
/// per item.
pub proof fn law_download_entries_from_named_items(root: NodeAddr, es: Seq<DownloadEntry>)
    requires
        downloads_read(root, es),
        dom_at_found(root, "[class=dllist1]"@),
    ensures
        exists|idx: Seq<int>|
            {
                &&& lists_named_items(
                    at_node(root, "[class=dllist1]"@),
                    dom_childs_len(at_node(root, "[class=dllist1]"@)),
                    idx,
                )
                &&& idx.len() == es.len()
                &&& forall|k: int|
                    0 <= k < es.len() ==> entry_read(
                        at_node(
                            child_node(at_node(root, "[class=dllist1]"@), idx[k]),
                            "[class=dlname nm]"@,
                        ),
                        #[trigger] es[k],
                    )
            },
        (forall|i: int|
            0 <= i < dom_childs_len(at_node(root, "[class=dllist1]"@)) ==> #[trigger] has_name(
                child_node(at_node(root, "[class=dllist1]"@), i),
            )) ==> {
            &&& es.len() == dom_childs_len(at_node(root, "[class=dllist1]"@))
            &&& forall|k: int|
                0 <= k < es.len() ==> entry_read(
                    at_node(child_node(at_node(root, "[class=dllist1]"@), k), "[class=dlname nm]"@),
                    #[trigger] es[k],
                )
        },
{
    let ul = at_node(root, "[class=dllist1]"@);
    let n = dom_childs_len(ul);
    lemma_named_positions(ul, n);
    let idx = named_positions(ul, n);
    assert forall|k: int| 0 <= k < es.len() implies entry_read(
        at_node(child_node(ul, idx[k]), "[class=dlname nm]"@),
        #[trigger] es[k],
    ) by {
        assert(named_items(ul, n)[k] == at_node(child_node(ul, idx[k]), "[class=dlname nm]"@));
    }
    if forall|i: int| 0 <= i < n ==> #[trigger] has_name(child_node(ul, i)) {
        lemma_all_named(ul, n);
        assert forall|k: int| 0 <= k < es.len() implies entry_read(
            at_node(child_node(ul, k), "[class=dlname nm]"@),
            #[trigger] es[k],
        ) by {
            assert(named_items(ul, n)[k] == at_node(child_node(ul, k), "[class=dlname nm]"@));
        }
    }
}

/// The actors are read from the first span that begins with 演员.
proof fn lemma_actor_first_span(spans: Seq<SpanText>)
    ensures
        (forall|i: int| 0 <= i < spans.len() ==> !starts_with(#[trigger] spans[i].text@, "演员"@))
            ==> actor_spec(spans) == "未知"@,
        forall|j: int|
            0 <= j < spans.len() && starts_with(#[trigger] spans[j].text@, "演员"@) && (forall|i: int|
                0 <= i < j ==> !starts_with(#[trigger] spans[i].text@, "演员"@)) ==> actor_spec(spans)
                == join(views(spans[j].following@), comma()),
    decreases spans.len(),
{
    if spans.len() > 0 {
        let rest = spans.drop_first();
        lemma_actor_first_span(rest);
        assert forall|j: int|
            0 <= j < spans.len() && starts_with(#[trigger] spans[j].text@, "演员"@) && (forall|i: int|
                0 <= i < j ==> !starts_with(#[trigger] spans[i].text@, "演员"@)) implies actor_spec(spans)
            == join(views(spans[j].following@), comma()) by {
            if j > 0 {
                assert(!starts_with(spans[0].text@, "演员"@));
                assert(rest[j - 1] == spans[j]);
                assert forall|i: int| 0 <= i < j - 1 implies !starts_with(#[trigger] rest[i].text@, "演员"@) by {
                    assert(rest[i] == spans[i + 1]);
                }
            }
        }
        if forall|i: int| 0 <= i < spans.len() ==> !starts_with(#[trigger] spans[i].text@, "演员"@) {
            assert(!starts_with(spans[0].text@, "演员"@));
            assert forall|i: int| 0 <= i < rest.len() implies !starts_with(#[trigger] rest[i].text@, "演员"@) by {
                assert(rest[i] == spans[i + 1]);
            }
        }
    }
}

/// The file names of each download entry, with `&` restored.
spec fn names_by_entry(es: Seq<DownloadEntry>) -> Seq<Seq<Seq<char>>> {
    Seq::new(es.len(), |k: int| restored(views(es[k].texts@)))
}

/// The file links of each download entry, with `&` restored.
spec fn links_by_entry(es: Seq<DownloadEntry>) -> Seq<Seq<Seq<char>>> {
    Seq::new(es.len(), |k: int| restored(unwrapped(opt_views(es[k].hrefs@))))
}

/// The names and links of a download list are those of its entries, entry
/// after entry.
proof fn lemma_entries_flatten(es: Seq<DownloadEntry>)
    ensures
        entry_texts(es) == names_by_entry(es).flatten_alt(),
        entry_links(es) == links_by_entry(es).flatten_alt(),
    decreases es.len(),
{
    if es.len() > 0 {
        lemma_entries_flatten(es.drop_last());
        assert(names_by_entry(es).drop_last() =~= names_by_entry(es.drop_last()));
        assert(links_by_entry(es).drop_last() =~= links_by_entry(es.drop_last()));
    }
}

/// The entry assembled from a detail page holds the page's address and the
/// category given; the `h1` text as title (未知 without one); the
/// `#movie_content` text as description (nothing without one); as actors
/// the texts that follow the first span beginning with 演员, joined with
/// commas (未知 without such a span); and as file names and links those of
/// every download entry, entry after entry, with `&` restored and joined
/// with commas.
pub proof fn law_entry_texts(
    url: Seq<char>,
    category: Seq<char>,
    p: DetailPage,
    es: Seq<DownloadEntry>,
    i: Info,
)
    requires
        p.info is Some,
        info_fields(i) == detail_fields(url, category, p, es),
    ensures
        i.url@ == url,
        i.category@ == category,
        p.info.unwrap().title matches Some(t) ==> i.tile@ == t@,
        p.info.unwrap().title is None ==> i.tile@ == "未知"@,
        p.info.unwrap().description matches Some(t) ==> i.description@ == t@,
        p.info.unwrap().description is None ==> i.description@ == Seq::<char>::empty(),
        (forall|k: int|
            0 <= k < p.info.unwrap().spans@.len() ==> !starts_with(
                #[trigger] p.info.unwrap().spans@[k].text@,
                "演员"@,
            )) ==> i.actor@ == "未知"@,
        forall|j: int|
            0 <= j < p.info.unwrap().spans@.len() && starts_with(
                #[trigger] p.info.unwrap().spans@[j].text@,
                "演员"@,
            ) && (forall|k: int|
                0 <= k < j ==> !starts_with(#[trigger] p.info.unwrap().spans@[k].text@, "演员"@))
                ==> i.actor@ == join(views(p.info.unwrap().spans@[j].following@), comma()),
        i.file_path@ == join(
            Seq::new(es.len(), |k: int| restored(views(es[k].texts@))).flatten(),
            comma(),
        ),
        i.file_url@ == join(
            Seq::new(es.len(), |k: int| restored(unwrapped(opt_views(es[k].hrefs@)))).flatten(),
            comma(),
        ),
{
    let f = info_fields(i);
    assert(f[0] == i.url@ && f[1] == i.category@ && f[2] == i.tile@ && f[9] == i.actor@);
    assert(f[11] == i.description@ && f[15] == i.file_path@ && f[16] == i.file_url@);
    lemma_actor_first_span(p.info.unwrap().spans@);
    lemma_entries_flatten(es);
    names_by_entry(es).lemma_flatten_and_flatten_alt_are_equivalent();
    links_by_entry(es).lemma_flatten_and_flatten_alt_are_equivalent();
    assert(names_by_entry(es) =~= Seq::new(es.len(), |k: int| restored(views(es[k].texts@))));
    assert(links_by_entry(es) =~= Seq::new(
        es.len(),
        |k: int| restored(unwrapped(opt_views(es[k].hrefs@))),
    ));
}

/// A detail page with an information block is read whole: one span per
/// `span` element of the block and one field block per `span_block`
/// element, in document order, each with its own text, and each field
/// block with its link texts and the text of its first child as label.
pub proof fn law_detail_page_read_whole(root: NodeAddr, p: DetailPage)
    requires
        detail_read(root, p),
        p.info is Some,
    ensures
        p.has_minfo,
        ({
            let info = at_node(at_node(root, "#minfo"@), "[class=info]"@);
            let b = p.info.unwrap();
            &&& dom_at_found(at_node(root, "#minfo"@), "[class=info]"@)
            &&& b.spans@.len() == dom_find_len(info, "span"@)
            &&& forall|k: int|
                0 <= k < b.spans@.len() ==> (#[trigger] b.spans@[k]).text@ == dom_text_of(
                    found_node(info, "span"@, k),
                )
            &&& b.fields@.len() == dom_find_len(info, "span[class=span_block]"@)
            &&& forall|k: int|
                0 <= k < b.fields@.len() ==> {
                    let a = found_node(info, "span[class=span_block]"@, k);
                    &&& (#[trigger] b.fields@[k]).text@ == dom_text_of(a)
                    &&& views(b.fields@[k].anchors@) == found_texts(a, "a"@)
                    &&& (dom_childs_len(a) > 0 ==> opt_view(b.fields@[k].label) == Some(
                        dom_text_of(child_node(a, 0)),
                    ))
                    &&& (dom_childs_len(a) == 0 ==> b.fields@[k].label is None)
                }
        }),
{
    let info = at_node(at_node(root, "#minfo"@), "[class=info]"@);
    let b = p.info.unwrap();
    assert forall|k: int| 0 <= k < b.fields@.len() implies {
        let a = found_node(info, "span[class=span_block]"@, k);
        &&& (#[trigger] b.fields@[k]).text@ == dom_text_of(a)
        &&& views(b.fields@[k].anchors@) == found_texts(a, "a"@)
        &&& (dom_childs_len(a) > 0 ==> opt_view(b.fields@[k].label) == Some(
            dom_text_of(child_node(a, 0)),
        ))
        &&& (dom_childs_len(a) == 0 ==> b.fields@[k].label is None)
    } by {
        let a = found_node(info, "span[class=span_block]"@, k);
        assert(crate::detail_page::field_read(a, b.fields@[k]));
    }
}

} // verus!
