//! Headless reporting: order what a scan found and render it, either as a
//! clean category-grouped table or as rows for JSON output.

use vstd::prelude::*;
use vstd::string::*;

use crate::order::{of_rank, stable_sort, Ranked};
use crate::scan::{
    add_wrapping, category_label, category_title, in_category, lemma_filter_push, lemma_wrap_step,
    size_total, wrap64, Category, ScanItem,
};
use crate::text::{decimal, decimal_string, pad_left, pad_right, padded_left, padded_right};
use crate::util::{age_label, age_text, human_size, human_size_spec, unix_secs, unix_secs_spec, Timestamp};

verus! {

impl Ranked for ScanItem {
    /// Larger items rank first.
    open spec fn rank(&self) -> int {
        0xffff_ffff_ffff_ffff - self.size
    }

    fn rank_of(&self) -> (res: u128) {
        (0xffff_ffff_ffff_ffffu64 - self.size) as u128
    }
}

} // verus!

verus! {

/// The items of size exactly `s`.
pub open spec fn of_size(s: u64) -> spec_fn(ScanItem) -> bool {
    |it: ScanItem| it.size == s
}

/// `out` is `items` sorted largest-first, items of equal size keeping their
/// order (a stable sort by descending size).
pub open spec fn largest_first(items: Seq<ScanItem>, out: Seq<ScanItem>) -> bool {
    &&& forall|i: int, j: int| 0 <= i < j < out.len() ==> out[i].size >= out[j].size
    &&& forall|s: u64| #[trigger] out.filter(of_size(s)) == items.filter(of_size(s))
}

/// Orders scan results largest-first; equal sizes keep the order in which
/// they were found.
pub fn sort_largest_first(items: Vec<ScanItem>) -> (res: Vec<ScanItem>)
    ensures
        res@.len() == items@.len(),
        largest_first(items@, res@),
{
    let ghost input = items@;
    let res = stable_sort(items);
    proof {
        assert forall|s: u64| #[trigger] res@.filter(of_size(s)) == input.filter(of_size(s)) by {
            let k: int = 0xffff_ffff_ffff_ffff - s;
            assert(of_rank::<ScanItem>(k) =~= of_size(s));
            assert(res@.filter(of_rank::<ScanItem>(k)) == input.filter(of_rank::<ScanItem>(k)));
        }
        assert forall|i: int, j: int| 0 <= i < j < res@.len() implies res@[i].size >= res@[j].size by {
            assert(res@[i].rank() <= res@[j].rank());
        }
    }
    res
}

} // verus!

verus! {

/// How an item is named in a listing: its label when it gathers several
/// paths, otherwise its kind in a 14-wide column and its path.
pub open spec fn item_name(it: ScanItem) -> Seq<char> {
    if it.paths@.len() > 1 {
        it.label@
    } else {
        pad_right(it.kind@, 14) + " "@ + it.primary_path()
    }
}

/// One listing line of the grouped report (without its line break).
pub open spec fn item_line(it: ScanItem, now: Timestamp) -> Seq<char> {
    "    "@ + pad_left(human_size_spec(it.size), 10) + "  "@ + pad_right(age_text(it.modified, now), 10)
        + " "@ + item_name(it)
}

/// The listing lines of `items`, each ended by a line break.
pub open spec fn item_lines(items: Seq<ScanItem>, now: Timestamp) -> Seq<char>
    decreases items.len(),
{
    if items.len() == 0 {
        Seq::empty()
    } else {
        item_lines(items.drop_last(), now) + item_line(items.last(), now) + "\n"@
    }
}

/// The heading of a category group: a blank line, then the title, the
/// subtotal and the item count.
pub open spec fn group_header(c: Category, group: Seq<ScanItem>) -> Seq<char> {
    "\n\u{258d} "@ + pad_right(category_title(c), 18) + " "@ + pad_left(
        human_size_spec(wrap64(size_total(group))),
        12,
    ) + "   ("@ + decimal(group.len()) + " item"@ + (if group.len() == 1 {
        Seq::empty()
    } else {
        "s"@
    }) + ")"@ + "\n"@
}

/// `x` placed into `s` after every item at least as large: into a
/// largest-first `s`, after the items of its own size.
pub open spec fn insert_by_size(s: Seq<ScanItem>, x: ScanItem) -> Seq<ScanItem>
    decreases s.len(),
{
    if s.len() == 0 {
        seq![x]
    } else if s.last().size >= x.size {
        s.push(x)
    } else {
        insert_by_size(s.drop_last(), x).push(s.last())
    }
}

/// `s` sorted largest-first, items of equal size keeping their order (a
/// stable sort by descending size).
pub open spec fn by_size(s: Seq<ScanItem>) -> Seq<ScanItem>
    decreases s.len(),
{
    if s.len() == 0 {
        Seq::empty()
    } else {
        insert_by_size(by_size(s.drop_last()), s.last())
    }
}

/// No item is larger than one before it.
pub open spec fn sizes_descend(s: Seq<ScanItem>) -> bool {
    forall|i: int, j: int| 0 <= i < j < s.len() ==> s[i].size >= s[j].size
}

/// The block of a category: nothing when no item has it, else its heading
/// and its items largest-first (equal sizes in their given order).
pub open spec fn group_block(items: Seq<ScanItem>, c: Category, now: Timestamp) -> Seq<char> {
    let group = items.filter(in_category(c));
    if group.len() == 0 {
        Seq::empty()
    } else {
        group_header(c, group) + item_lines(by_size(group), now)
    }
}

/// How many categories at least one item has.
pub open spec fn categories_present(items: Seq<ScanItem>) -> nat {
    (if items.filter(in_category(Category::Node)).len() > 0 { 1nat } else { 0nat })
        + (if items.filter(in_category(Category::Python)).len() > 0 { 1nat } else { 0nat })
        + (if items.filter(in_category(Category::Model)).len() > 0 { 1nat } else { 0nat })
        + (if items.filter(in_category(Category::Build)).len() > 0 { 1nat } else { 0nat })
}

/// The grouped report as printed: one block per category in display order,
/// then a blank line and the summary line.
pub open spec fn grouped_text(items: Seq<ScanItem>, now: Timestamp) -> Seq<char> {
    group_block(items, Category::Node, now) + group_block(items, Category::Python, now) + group_block(
        items,
        Category::Model,
        now,
    ) + group_block(items, Category::Build, now) + "\n"@ + decimal(items.len()) + " item(s) across "@
        + decimal(categories_present(items)) + " categories \u{b7} "@ + human_size_spec(
        wrap64(size_total(items)),
    ) + " reclaimable"@ + "\n"@
}

/// The name column of one item.
pub fn item_name_text(it: &ScanItem) -> (res: String)
    ensures
        res@ == item_name(*it),
{
    if it.count() > 1 {
        it.label.clone()
    } else {
        let mut s = padded_right(it.kind.as_str(), 14);
        s.append(" ");
        s.append(it.primary());
        s
    }
}

/// One listing line of the grouped report.
pub fn item_line_text(it: &ScanItem, now: Timestamp) -> (res: String)
    ensures
        res@ == item_line(*it, now),
{
    let mut s = String::from_str("    ");
    let size = human_size(it.size);
    s.append(padded_left(size.as_str(), 10).as_str());
    s.append("  ");
    let age = age_label(it.modified, now);
    s.append(padded_right(age.as_str(), 10).as_str());
    s.append(" ");
    s.append(item_name_text(it).as_str());
    s
}

/// Inserting `x` where the first of the trailing items smaller than it
/// stood.
proof fn lemma_insert_at(t: Seq<ScanItem>, x: ScanItem, j: int)
    requires
        0 <= j <= t.len(),
        forall|m: int| j <= m < t.len() ==> #[trigger] t[m].size < x.size,
        j == 0 || t[j - 1].size >= x.size,
    ensures
        insert_by_size(t, x) == t.subrange(0, j) + seq![x] + t.subrange(j, t.len() as int),
    decreases t.len(),
{
    if t.len() == 0 {
        assert(insert_by_size(t, x) =~= t.subrange(0, j) + seq![x] + t.subrange(j, t.len() as int));
    } else if j == t.len() {
        assert(t.last().size >= x.size);
        assert(insert_by_size(t, x) =~= t.subrange(0, j) + seq![x] + t.subrange(j, t.len() as int));
    } else {
        assert(t.last().size < x.size);
        let d = t.drop_last();
        assert forall|m: int| j <= m < d.len() implies #[trigger] d[m].size < x.size by {
            assert(d[m] == t[m]);
        }
        lemma_insert_at(d, x, j);
        assert(insert_by_size(t, x) =~= t.subrange(0, j) + seq![x] + t.subrange(j, t.len() as int));
    }
}

/// Inserting into a largest-first sequence keeps it largest-first.
proof fn lemma_insert_descends(t: Seq<ScanItem>, x: ScanItem)
    requires
        sizes_descend(t),
    ensures
        sizes_descend(insert_by_size(t, x)),
        insert_by_size(t, x).len() == t.len() + 1,
    decreases t.len(),
{
    if t.len() > 0 && t.last().size < x.size {
        let d = t.drop_last();
        lemma_insert_descends(d, x);
        let r = insert_by_size(d, x);
        // every item of `r` is `x` or an item of `d`, so none is smaller
        // than the last item of `t`
        assert forall|i: int| 0 <= i < r.len() implies #[trigger] r[i].size >= t.last().size by {
            lemma_insert_members(d, x, i);
        }
    }
}

/// Every item of an insertion is the inserted item or one of `t`.
proof fn lemma_insert_members(t: Seq<ScanItem>, x: ScanItem, i: int)
    requires
        0 <= i < insert_by_size(t, x).len(),
    ensures
        insert_by_size(t, x)[i] == x || exists|k: int| 0 <= k < t.len() && t[k] == insert_by_size(t, x)[i],
        insert_by_size(t, x).len() == t.len() + 1,
    decreases t.len(),
{
    if t.len() == 0 {
    } else if t.last().size >= x.size {
        if i < t.len() {
            assert(t[i] == insert_by_size(t, x)[i]);
        }
    } else {
        let d = t.drop_last();
        let r = insert_by_size(d, x);
        lemma_insert_members(d, x, 0);
        if i < r.len() {
            lemma_insert_members(d, x, i);
            if r[i] != x {
                let k = choose|k: int| 0 <= k < d.len() && d[k] == r[i];
                assert(t[k] == d[k]);
            }
        } else {
            assert(t[t.len() - 1] == insert_by_size(t, x)[i]);
        }
    }
}

/// The stable sort by descending size does order largest-first.
pub proof fn lemma_by_size_descends(s: Seq<ScanItem>)
    ensures
        sizes_descend(by_size(s)),
        by_size(s).len() == s.len(),
    decreases s.len(),
{
    if s.len() > 0 {
        lemma_by_size_descends(s.drop_last());
        lemma_insert_descends(by_size(s.drop_last()), s.last());
    }
}

/// The positions of the items of category `c`, largest item first (equal
/// sizes in their given order).
fn size_order(items: &Vec<ScanItem>, c: Category) -> (res: Vec<usize>)
    ensures
        forall|k: int| 0 <= k < res@.len() ==> #[trigger] res@[k] < items@.len(),
        res@.map_values(|k: usize| items@[k as int]) == by_size(items@.filter(in_category(c))),
{
    let ghost pred = in_category(c);
    let mut order: Vec<usize> = Vec::new();
    let mut i: usize = 0;
    assert(order@.map_values(|k: usize| items@[k as int]) =~= Seq::<ScanItem>::empty());
    assert(items@.subrange(0, 0).filter(pred) =~= Seq::<ScanItem>::empty()) by {
        reveal(Seq::filter);
    }
    while i < items.len()
        invariant
            i <= items@.len(),
            pred == in_category(c),
            forall|k: int| 0 <= k < order@.len() ==> #[trigger] order@[k] < items@.len(),
            order@.map_values(|k: usize| items@[k as int]) == by_size(items@.subrange(0, i as int).filter(pred)),
        decreases items@.len() - i,
    {
        let ghost prefix = items@.subrange(0, i as int);
        proof {
            assert(items@.subrange(0, i + 1) =~= prefix.push(items@[i as int]));
            lemma_filter_push(prefix, items@[i as int], pred);
        }
        if items[i].category == c {
            let ghost t = order@.map_values(|k: usize| items@[k as int]);
            let mut j = order.len();
            while j > 0 && items[order[j - 1]].size < items[i].size
                invariant
                    j <= order@.len(),
                    i < items@.len(),
                    t == order@.map_values(|k: usize| items@[k as int]),
                    forall|k: int| 0 <= k < order@.len() ==> #[trigger] order@[k] < items@.len(),
                    forall|m: int| j <= m < t.len() ==> #[trigger] t[m].size < items@[i as int].size,
                decreases j,
            {
                j = j - 1;
            }
            proof {
                lemma_insert_at(t, items@[i as int], j as int);
                let f = prefix.filter(pred);
                assert(f.push(items@[i as int]).drop_last() =~= f);
            }
            order.insert(j, i);
            proof {
                assert(order@.map_values(|k: usize| items@[k as int]) =~= t.subrange(0, j as int) + seq![
                    items@[i as int],
                ] + t.subrange(j as int, t.len() as int));
            }
        }
        i = i + 1;
    }
    assert(items@.subrange(0, i as int) =~= items@);
    order
}

/// The block of one category in the grouped report.
pub fn group_block_text(items: &Vec<ScanItem>, c: Category, now: Timestamp) -> (res: String)
    ensures
        res@ == group_block(items@, c, now),
{
    let ghost pred = in_category(c);
    let mut count: usize = 0;
    let mut sub: u64 = 0;
    let mut i: usize = 0;
    while i < items.len()
        invariant
            i <= items@.len(),
            pred == in_category(c),
            count == items@.subrange(0, i as int).filter(pred).len(),
            sub == wrap64(size_total(items@.subrange(0, i as int).filter(pred))),
        decreases items@.len() - i,
    {
        let ghost prefix = items@.subrange(0, i as int);
        proof {
            assert(items@.subrange(0, i + 1) =~= prefix.push(items@[i as int]));
            lemma_filter_push(prefix, items@[i as int], pred);
            prefix.filter(pred).lemma_filter_len(pred);
            assert(prefix.filter(pred).len() <= prefix.len());
        }
        if items[i].category == c {
            proof {
                lemma_wrap_step(size_total(prefix.filter(pred)), sub, items@[i as int].size);
                assert(prefix.filter(pred).push(items@[i as int]).drop_last() =~= prefix.filter(pred));
            }
            count = count + 1;
            sub = add_wrapping(sub, items[i].size);
        }
        i = i + 1;
    }
    proof {
        assert(items@.subrange(0, i as int) =~= items@);
    }
    if count == 0 {
        return String::new();
    }
    let order = size_order(items, c);
    let ghost sorted = order@.map_values(|k: usize| items@[k as int]);
    let mut lines = String::new();
    let mut k: usize = 0;
    assert(sorted.subrange(0, 0) =~= Seq::<ScanItem>::empty());
    while k < order.len()
        invariant
            k <= order@.len(),
            sorted == order@.map_values(|k: usize| items@[k as int]),
            forall|m: int| 0 <= m < order@.len() ==> #[trigger] order@[m] < items@.len(),
            lines@ == item_lines(sorted.subrange(0, k as int), now),
        decreases order@.len() - k,
    {
        let line = item_line_text(&items[order[k]], now);
        proof {
            assert(sorted.subrange(0, k + 1).drop_last() =~= sorted.subrange(0, k as int));
        }
        lines.append(line.as_str());
        lines.append("\n");
        k = k + 1;
    }
    assert(sorted.subrange(0, k as int) =~= sorted);
    let mut out = String::from_str("\n\u{258d} ");
    out.append(padded_right(c.title(), 18).as_str());
    out.append(" ");
    let subtotal = human_size(sub);
    out.append(padded_left(subtotal.as_str(), 12).as_str());
    out.append("   (");
    out.append(decimal_string(count as u128).as_str());
    out.append(" item");
    if count != 1 {
        out.append("s");
    }
    out.append(")");
    out.append("\n");
    out.append(lines.as_str());
    out
}

/// Whether some item has category `c`.
pub fn has_category(items: &Vec<ScanItem>, c: Category) -> (res: bool)
    ensures
        res == (items@.filter(in_category(c)).len() > 0),
{
    let mut i: usize = 0;
    while i < items.len()
        invariant
            i <= items@.len(),
            items@.subrange(0, i as int).filter(in_category(c)).len() == 0,
        decreases items@.len() - i,
    {
        proof {
            assert(items@.subrange(0, i + 1) =~= items@.subrange(0, i as int).push(items@[i as int]));
            lemma_filter_push(items@.subrange(0, i as int), items@[i as int], in_category(c));
        }
        if items[i].category == c {
            proof {
                items@.lemma_filter_contains(in_category(c), i as int);
            }
            return true;
        }
        i = i + 1;
    }
    assert(items@.subrange(0, i as int) =~= items@);
    false
}

/// How many categories at least one item has.
pub fn categories_present_count(items: &Vec<ScanItem>) -> (res: usize)
    ensures
        res == categories_present(items@),
{
    let mut n: usize = 0;
    if has_category(items, Category::Node) {
        n = n + 1;
    }
    if has_category(items, Category::Python) {
        n = n + 1;
    }
    if has_category(items, Category::Model) {
        n = n + 1;
    }
    if has_category(items, Category::Build) {
        n = n + 1;
    }
    n
}

/// Results grouped by category, each group sorted largest-first (equal
/// sizes in their given order), with per-category subtotals and a grand
/// total, exactly as the grouped printout shows them at `now`.
pub fn grouped_report(items: &Vec<ScanItem>, now: Timestamp) -> (res: String)
    ensures
        res@ == grouped_text(items@, now),
{
    let mut out = String::new();
    out.append(group_block_text(items, Category::Node, now).as_str());
    out.append(group_block_text(items, Category::Python, now).as_str());
    out.append(group_block_text(items, Category::Model, now).as_str());
    out.append(group_block_text(items, Category::Build, now).as_str());
    let present = categories_present_count(items);
    out.append("\n");
    out.append(decimal_string(items.len() as u128).as_str());
    out.append(" item(s) across ");
    out.append(decimal_string(present as u128).as_str());
    out.append(" categories \u{b7} ");
    out.append(human_size(crate::scan::total_size(items)).as_str());
    out.append(" reclaimable");
    out.append("\n");
    out
}

} // verus!

verus! {

/// One scan result in the shape of the JSON output.
pub struct ItemJson {
    pub category: String,
    pub kind: String,
    pub label: String,
    pub size: u64,
    pub size_human: String,
    pub count: usize,
    pub modified_unix: Option<u64>,
    pub paths: Vec<String>,
}

/// `row` carries what the JSON output says of `it`.
pub open spec fn json_of(row: ItemJson, it: ScanItem) -> bool {
    &&& row.category@ == category_label(it.category)
    &&& row.kind@ == it.kind@
    &&& row.label@ == it.label@
    &&& row.size == it.size
    &&& row.size_human@ == human_size_spec(it.size)
    &&& row.count == it.paths@.len()
    &&& row.modified_unix == (match it.modified {
        Some(t) => unix_secs_spec(t),
        None => None,
    })
    &&& row.paths@ == it.paths@
}

/// The JSON row of one item.
pub fn json_row(it: &ScanItem) -> (res: ItemJson)
    ensures
        json_of(res, *it),
{
    let modified_unix = match it.modified {
        Some(t) => unix_secs(t),
        None => None,
    };
    let paths = it.paths.clone();
    proof {
        assert(paths@ =~= it.paths@);
    }
    ItemJson {
        category: String::from_str(it.category.label()),
        kind: it.kind.clone(),
        label: it.label.clone(),
        size: it.size,
        size_human: human_size(it.size),
        count: it.count(),
        modified_unix,
        paths,
    }
}

/// The JSON rows of `items`, one per item, in order.
pub fn json_rows(items: &Vec<ScanItem>) -> (res: Vec<ItemJson>)
    ensures
        res@.len() == items@.len(),
        forall|i: int| 0 <= i < items@.len() ==> json_of(#[trigger] res@[i], items@[i]),
{
    let mut out: Vec<ItemJson> = Vec::new();
    let mut i: usize = 0;
    while i < items.len()
        invariant
            i <= items@.len(),
            out@.len() == i,
            forall|j: int| 0 <= j < i ==> json_of(#[trigger] out@[j], items@[j]),
        decreases items@.len() - i,
    {
        out.push(json_row(&items[i]));
        i = i + 1;
    }
    out
}

} // verus!

verus! {

/// The grand total is the sum of the per-category subtotals: every item
/// belongs to exactly one of the four groups.
pub proof fn lemma_total_is_sum_of_groups(items: Seq<ScanItem>)
    ensures
        size_total(items) == size_total(items.filter(in_category(Category::Node))) + size_total(
            items.filter(in_category(Category::Python)),
        ) + size_total(items.filter(in_category(Category::Model))) + size_total(
            items.filter(in_category(Category::Build)),
        ),
    decreases items.len(),
{
    if items.len() == 0 {
        reveal(Seq::filter);
    } else {
        let rest = items.drop_last();
        let x = items.last();
        lemma_total_is_sum_of_groups(rest);
        assert(rest.push(x) =~= items);
        crate::scan::lemma_filter_push(rest, x, in_category(Category::Node));
        crate::scan::lemma_filter_push(rest, x, in_category(Category::Python));
        crate::scan::lemma_filter_push(rest, x, in_category(Category::Model));
        crate::scan::lemma_filter_push(rest, x, in_category(Category::Build));
        // each group that gains `x` loses it again by dropping the last item
        assert forall|c: Category| #[trigger] rest.filter(in_category(c)).push(x).drop_last() == rest.filter(
            in_category(c),
        ) by {
            assert(rest.filter(in_category(c)).push(x).drop_last() =~= rest.filter(in_category(c)));
        }
    }
}

} // verus!
