//! The state of the interactive view: what the scanner found, grouped by
//! category with subtotals, which rows are ticked, which categories are
//! shown, and where the cursor is. Drawing and key reading stay outside;
//! every decision about the state is made here.

use vstd::prelude::*;
use vstd::string::*;

use crate::order::{lemma_append_step, lemma_sorted_is_stable, rank_sorted, stably_sorted, Ranked};
use crate::scan::{add_wrapping, category_rank, lemma_wrap_step, wrap64, Category, ScanItem, ScanMsg};
use crate::scan::{category_label, category_title};
use crate::text::{decimal, decimal_string, pad_left, pad_right, padded_left, padded_right};
use crate::util::{age_label, age_text, human_size, human_size_spec, Timestamp};

verus! {

/// One found item and whether it is ticked for deletion.
pub struct Row {
    pub item: ScanItem,
    pub selected: bool,
}

impl Ranked for Row {
    /// Rows order by category (Node, Python, Model, Build), then largest
    /// first.
    open spec fn rank(&self) -> int {
        category_rank(self.item.category) * 0x1_0000_0000_0000_0000 + (0xffff_ffff_ffff_ffff
            - self.item.size)
    }

    fn rank_of(&self) -> (res: u128) {
        (self.item.category.order() as u128) * 0x1_0000_0000_0000_0000 + ((0xffff_ffff_ffff_ffffu64
            - self.item.size) as u128)
    }
}

/// One rendered line: a category header or a selectable row (by index).
#[derive(Clone, Copy, Debug, PartialEq, Eq, Structural)]
pub enum Disp {
    Header(Category),
    Item(usize),
}

/// The lines of the rows of category `c`, in row order.
pub open spec fn rows_of(rows: Seq<Row>, c: Category) -> Seq<Disp>
    decreases rows.len(),
{
    if rows.len() == 0 {
        Seq::empty()
    } else {
        let rest = rows_of(rows.drop_last(), c);
        if rows.last().item.category == c {
            rest.push(Disp::Item((rows.len() - 1) as usize))
        } else {
            rest
        }
    }
}

/// The block of category `c`: its header and its rows, when it is shown
/// and has rows; otherwise nothing.
pub open spec fn block(rows: Seq<Row>, filter: Seq<Category>, c: Category) -> Seq<Disp> {
    let items = rows_of(rows, c);
    if filter.contains(c) && items.len() > 0 {
        seq![Disp::Header(c)] + items
    } else {
        Seq::empty()
    }
}

/// The display list: one block per category, in display order.
pub open spec fn layout(rows: Seq<Row>, filter: Seq<Category>) -> Seq<Disp> {
    block(rows, filter, Category::Node) + block(rows, filter, Category::Python) + block(
        rows,
        filter,
        Category::Model,
    ) + block(rows, filter, Category::Build)
}

/// `k` is the first selectable line of `disp`.
pub open spec fn first_item_at(disp: Seq<Disp>, k: int) -> bool {
    &&& 0 <= k < disp.len()
    &&& disp[k] is Item
    &&& forall|j: int| 0 <= j < k ==> disp[j] is Header
}

/// Some line of `disp` is selectable.
pub open spec fn has_item(disp: Seq<Disp>) -> bool {
    exists|k: int| 0 <= k < disp.len() && disp[k] is Item
}

/// Where the cursor goes after a relayout: onto the line of the row it was
/// on, `prev`, when that row is still shown; else onto the first
/// selectable line; else nowhere.
pub open spec fn placed(disp: Seq<Disp>, prev: Option<usize>, sel: Option<usize>) -> bool {
    if prev is Some && disp.contains(Disp::Item(prev->Some_0)) {
        sel matches Some(k) && k < disp.len() && disp[k as int] == Disp::Item(prev->Some_0)
    } else if has_item(disp) {
        sel matches Some(k) && first_item_at(disp, k as int)
    } else {
        sel is None
    }
}

/// The cursor is on a selectable line, or nowhere when there is none.
pub open spec fn cursor_ok(disp: Seq<Disp>, sel: Option<usize>) -> bool {
    match sel {
        Some(k) => k < disp.len() && disp[k as int] is Item,
        None => !has_item(disp),
    }
}

/// No category occurs twice.
pub open spec fn distinct_categories(v: Seq<Category>) -> bool {
    forall|i: int, j: int| 0 <= i < v.len() && 0 <= j < v.len() && i != j ==> v[i] != v[j]
}

/// The row under the cursor, if the cursor is on a row's line.
pub open spec fn cursor_row(disp: Seq<Disp>, sel: Option<usize>) -> Option<usize> {
    match sel {
        Some(k) => if k < disp.len() && disp[k as int] is Item {
            Some(disp[k as int]->Item_0)
        } else {
            None
        },
        None => None,
    }
}

/// The whole state of the interactive view.
pub struct App {
    pub rows: Vec<Row>,
    pub disp: Vec<Disp>,
    /// The highlighted line of `disp`.
    pub selected: Option<usize>,
    /// The categories shown.
    pub filter: Vec<Category>,
    pub scanning: bool,
    pub status: String,
    pub last_action: String,
}

impl App {
    /// The state is consistent: rows in display order, each category shown
    /// at most once in the filter, the display list laid out from the rows,
    /// and the cursor on a selectable line.
    pub open spec fn wf(&self) -> bool {
        &&& rank_sorted(self.rows@)
        &&& distinct_categories(self.filter@)
        &&& self.disp@ == layout(self.rows@, self.filter@)
        &&& cursor_ok(self.disp@, self.selected)
    }

    /// The row under the cursor.
    pub open spec fn current(&self) -> Option<usize> {
        cursor_row(self.disp@, self.selected)
    }
}

} // verus!

verus! {

/// Facts about the row lines of one category: each names a row of that
/// category, in strictly increasing row order, and every such row has one.
pub proof fn lemma_rows_of(rows: Seq<Row>, c: Category)
    requires
        rows.len() <= usize::MAX,
    ensures
        forall|k: int| 0 <= k < rows_of(rows, c).len() ==> {
            let d = #[trigger] rows_of(rows, c)[k];
            &&& d is Item
            &&& d->Item_0 < rows.len()
            &&& rows[d->Item_0 as int].item.category == c
        },
        forall|k: int, m: int|
            0 <= k < m < rows_of(rows, c).len() ==> (#[trigger] rows_of(rows, c)[k])->Item_0
                < (#[trigger] rows_of(rows, c)[m])->Item_0,
        forall|r: usize|
            rows_of(rows, c).contains(Disp::Item(r)) <==> (r < rows.len() && rows[r as int].item.category
                == c),
    decreases rows.len(),
{
    if rows.len() > 0 {
        let pre = rows.drop_last();
        lemma_rows_of(pre, c);
        let rest = rows_of(pre, c);
        let all = rows_of(rows, c);
        let n = pre.len();
        assert forall|i: int| 0 <= i < n implies pre[i] == rows[i] by {}
        if rows.last().item.category == c {
            assert(all == rest.push(Disp::Item(n as usize)));
        } else {
            assert(all == rest);
        }
        assert forall|k: int| 0 <= k < all.len() implies {
            let d = #[trigger] all[k];
            &&& d is Item
            &&& d->Item_0 < rows.len()
            &&& rows[d->Item_0 as int].item.category == c
        } by {
            if k < rest.len() {
                assert(all[k] == rest[k]);
                assert(pre[rest[k]->Item_0 as int] == rows[rest[k]->Item_0 as int]);
            } else {
                assert(all[k] == Disp::Item(n as usize));
            }
        }
        assert forall|k: int, m: int| 0 <= k < m < all.len() implies (#[trigger] all[k])->Item_0
            < (#[trigger] all[m])->Item_0 by {
            if m < rest.len() {
                assert(all[k] == rest[k]);
                assert(all[m] == rest[m]);
            } else {
                assert(all[k] == rest[k]);
                assert(all[m] == Disp::Item(n as usize));
                assert(rest[k]->Item_0 < n);
            }
        }
        assert forall|r: usize| all.contains(Disp::Item(r)) <==> (r < rows.len() && rows[r as int].item.category
            == c) by {
            if all.contains(Disp::Item(r)) {
                let k = choose|k: int| 0 <= k < all.len() && all[k] == Disp::Item(r);
                assert(all[k] is Item);
            }
            if r < rows.len() && rows[r as int].item.category == c {
                if r < n {
                    assert(pre[r as int] == rows[r as int]);
                    assert(rest.contains(Disp::Item(r)));
                    let k = choose|k: int| 0 <= k < rest.len() && rest[k] == Disp::Item(r);
                    assert(all[k] == Disp::Item(r));
                } else {
                    assert(r == n);
                    assert(all[rest.len() as int] == Disp::Item(r));
                }
            }
        }
    }
}

/// Row lines depend on the rows' categories only.
pub proof fn lemma_rows_of_same_categories(a: Seq<Row>, b: Seq<Row>, c: Category)
    requires
        a.len() == b.len(),
        forall|i: int| 0 <= i < a.len() ==> a[i].item.category == b[i].item.category,
    ensures
        rows_of(a, c) == rows_of(b, c),
    decreases a.len(),
{
    if a.len() > 0 {
        lemma_rows_of_same_categories(a.drop_last(), b.drop_last(), c);
    }
}

/// The layout depends on the rows' categories only.
pub proof fn lemma_layout_same_categories(a: Seq<Row>, b: Seq<Row>, f: Seq<Category>)
    requires
        a.len() == b.len(),
        forall|i: int| 0 <= i < a.len() ==> a[i].item.category == b[i].item.category,
    ensures
        layout(a, f) == layout(b, f),
{
    lemma_rows_of_same_categories(a, b, Category::Node);
    lemma_rows_of_same_categories(a, b, Category::Python);
    lemma_rows_of_same_categories(a, b, Category::Model);
    lemma_rows_of_same_categories(a, b, Category::Build);
}

/// Facts about a block.
proof fn lemma_block(rows: Seq<Row>, f: Seq<Category>, c: Category)
    requires
        rows.len() <= usize::MAX,
    ensures
        forall|k: int| 0 <= k < block(rows, f, c).len() && (#[trigger] block(rows, f, c)[k]) is Item ==> {
            let r = block(rows, f, c)[k]->Item_0;
            &&& r < rows.len()
            &&& rows[r as int].item.category == c
            &&& f.contains(c)
        },
        forall|r: usize|
            block(rows, f, c).contains(Disp::Item(r)) <==> (r < rows.len() && rows[r as int].item.category
                == c && f.contains(c)),
{
    lemma_rows_of(rows, c);
    let items = rows_of(rows, c);
    let b = block(rows, f, c);
    if f.contains(c) && items.len() > 0 {
        assert forall|k: int| 0 <= k < b.len() && (#[trigger] b[k]) is Item implies {
            let r = b[k]->Item_0;
            &&& r < rows.len()
            &&& rows[r as int].item.category == c
            &&& f.contains(c)
        } by {
            assert(k >= 1);
            assert(b[k] == items[k - 1]);
        }
        assert forall|r: usize| b.contains(Disp::Item(r)) <==> (r < rows.len() && rows[r as int].item.category
            == c && f.contains(c)) by {
            if b.contains(Disp::Item(r)) {
                let k = choose|k: int| 0 <= k < b.len() && b[k] == Disp::Item(r);
                assert(k >= 1);
                assert(items[k - 1] == Disp::Item(r));
                assert(items.contains(Disp::Item(r)));
            }
            if r < rows.len() && rows[r as int].item.category == c {
                assert(items.contains(Disp::Item(r)));
                let k = choose|k: int| 0 <= k < items.len() && items[k] == Disp::Item(r);
                assert(b[k + 1] == Disp::Item(r));
            }
        }
    } else {
        assert forall|r: usize| b.contains(Disp::Item(r)) <==> (r < rows.len() && rows[r as int].item.category
            == c && f.contains(c)) by {
            if r < rows.len() && rows[r as int].item.category == c && f.contains(c) {
                assert(items.contains(Disp::Item(r)));
            }
        }
    }
}

/// The rows the layout shows are exactly the rows of shown categories, and
/// every row line names an existing row.
pub proof fn lemma_layout(rows: Seq<Row>, f: Seq<Category>)
    requires
        rows.len() <= usize::MAX,
    ensures
        forall|k: int| 0 <= k < layout(rows, f).len() && (#[trigger] layout(rows, f)[k]) is Item ==> {
            let r = layout(rows, f)[k]->Item_0;
            &&& r < rows.len()
            &&& f.contains(rows[r as int].item.category)
        },
        forall|r: usize|
            layout(rows, f).contains(Disp::Item(r)) <==> (r < rows.len() && f.contains(
                rows[r as int].item.category,
            )),
{
    lemma_block(rows, f, Category::Node);
    lemma_block(rows, f, Category::Python);
    lemma_block(rows, f, Category::Model);
    lemma_block(rows, f, Category::Build);
    let b0 = block(rows, f, Category::Node);
    let b1 = block(rows, f, Category::Python);
    let b2 = block(rows, f, Category::Model);
    let b3 = block(rows, f, Category::Build);
    let l = layout(rows, f);
    assert(l == b0 + b1 + b2 + b3);
    assert forall|k: int| 0 <= k < l.len() && (#[trigger] l[k]) is Item implies {
        let r = l[k]->Item_0;
        &&& r < rows.len()
        &&& f.contains(rows[r as int].item.category)
    } by {
        if k < b0.len() {
            assert(l[k] == b0[k]);
        } else if k < b0.len() + b1.len() {
            assert(l[k] == b1[k - b0.len()]);
        } else if k < b0.len() + b1.len() + b2.len() {
            assert(l[k] == b2[k - b0.len() - b1.len()]);
        } else {
            assert(l[k] == b3[k - b0.len() - b1.len() - b2.len()]);
        }
    }
    assert forall|r: usize| l.contains(Disp::Item(r)) <==> (r < rows.len() && f.contains(
        rows[r as int].item.category,
    )) by {
        if l.contains(Disp::Item(r)) {
            let k = choose|k: int| 0 <= k < l.len() && l[k] == Disp::Item(r);
            assert(l[k] is Item);
        }
        if r < rows.len() && f.contains(rows[r as int].item.category) {
            let c = rows[r as int].item.category;
            let bc = block(rows, f, c);
            assert(bc.contains(Disp::Item(r)));
            let j = choose|j: int| 0 <= j < bc.len() && bc[j] == Disp::Item(r);
            match c {
                Category::Node => { assert(l[j] == b0[j]); },
                Category::Python => { assert(l[b0.len() + j] == b1[j]); },
                Category::Model => { assert(l[b0.len() + b1.len() + j] == b2[j]); },
                Category::Build => { assert(l[b0.len() + b1.len() + b2.len() + j] == b3[j]); },
            }
        }
    }
}

} // verus!

verus! {

/// Whether `v` holds `c`.
fn shows(v: &Vec<Category>, c: Category) -> (res: bool)
    ensures
        res == v@.contains(c),
{
    let mut i: usize = 0;
    while i < v.len()
        invariant
            i <= v@.len(),
            forall|j: int| 0 <= j < i ==> v@[j] != c,
        decreases v@.len() - i,
    {
        if v[i] == c {
            assert(v@[i as int] == c);
            return true;
        }
        i = i + 1;
    }
    false
}

/// The row lines of category `c`.
fn rows_of_exec(rows: &Vec<Row>, c: Category) -> (res: Vec<Disp>)
    ensures
        res@ == rows_of(rows@, c),
{
    let mut out: Vec<Disp> = Vec::new();
    let mut i: usize = 0;
    while i < rows.len()
        invariant
            i <= rows@.len(),
            out@ == rows_of(rows@.subrange(0, i as int), c),
        decreases rows@.len() - i,
    {
        proof {
            assert(rows@.subrange(0, i + 1).drop_last() =~= rows@.subrange(0, i as int));
        }
        if rows[i].item.category == c {
            out.push(Disp::Item(i));
        }
        i = i + 1;
    }
    assert(rows@.subrange(0, i as int) =~= rows@);
    out
}

/// Appends the block of category `c`.
fn push_block(out: &mut Vec<Disp>, rows: &Vec<Row>, filter: &Vec<Category>, c: Category)
    ensures
        final(out)@ == old(out)@ + block(rows@, filter@, c),
{
    if shows(filter, c) {
        let items = rows_of_exec(rows, c);
        if items.len() > 0 {
            out.push(Disp::Header(c));
            let mut k: usize = 0;
            let ghost base = out@;
            while k < items.len()
                invariant
                    k <= items@.len(),
                    out@ == base + items@.subrange(0, k as int),
                decreases items@.len() - k,
            {
                out.push(items[k]);
                k = k + 1;
                assert(out@ =~= base + items@.subrange(0, k as int));
            }
            assert(items@.subrange(0, k as int) =~= items@);
            assert(out@ =~= old(out)@ + block(rows@, filter@, c));
            return;
        }
    }
    assert(out@ =~= old(out)@ + block(rows@, filter@, c));
}

/// The display list of `rows` under `filter`.
pub fn layout_of(rows: &Vec<Row>, filter: &Vec<Category>) -> (res: Vec<Disp>)
    ensures
        res@ == layout(rows@, filter@),
{
    let mut out: Vec<Disp> = Vec::new();
    push_block(&mut out, rows, filter, Category::Node);
    push_block(&mut out, rows, filter, Category::Python);
    push_block(&mut out, rows, filter, Category::Model);
    push_block(&mut out, rows, filter, Category::Build);
    assert(out@ =~= layout(rows@, filter@));
    out
}

/// The line of row `r`, if it is shown.
fn line_of(disp: &Vec<Disp>, r: usize) -> (res: Option<usize>)
    ensures
        match res {
            Some(k) => k < disp@.len() && disp@[k as int] == Disp::Item(r),
            None => !disp@.contains(Disp::Item(r)),
        },
{
    let mut k: usize = 0;
    while k < disp.len()
        invariant
            k <= disp@.len(),
            forall|j: int| 0 <= j < k ==> disp@[j] != Disp::Item(r),
        decreases disp@.len() - k,
    {
        if disp[k] == Disp::Item(r) {
            return Some(k);
        }
        k = k + 1;
    }
    None
}

/// The first selectable line, if any.
fn first_item(disp: &Vec<Disp>) -> (res: Option<usize>)
    ensures
        match res {
            Some(k) => first_item_at(disp@, k as int),
            None => !has_item(disp@),
        },
{
    let mut k: usize = 0;
    while k < disp.len()
        invariant
            k <= disp@.len(),
            forall|j: int| 0 <= j < k ==> disp@[j] is Header,
        decreases disp@.len() - k,
    {
        match disp[k] {
            Disp::Item(_) => { return Some(k); },
            Disp::Header(_) => {},
        }
        k = k + 1;
    }
    None
}

impl App {
    /// A fresh view: no rows yet, every category shown, scanning.
    pub fn new() -> (res: App)
        ensures
            res.wf(),
            res.rows@.len() == 0,
            res.selected is None,
            forall|c: Category| res.filter@.contains(c),
            res.scanning,
            res.status@ == "Starting\u{2026}"@,
            res.last_action@ == Seq::<char>::empty(),
    {
        let filter = vec![Category::Node, Category::Python, Category::Model, Category::Build];
        let rows: Vec<Row> = Vec::new();
        let disp = layout_of(&rows, &filter);
        proof {
            lemma_layout(rows@, filter@);
            assert forall|c: Category| filter@.contains(c) by {
                match c {
                    Category::Node => { assert(filter@[0] == c); },
                    Category::Python => { assert(filter@[1] == c); },
                    Category::Model => { assert(filter@[2] == c); },
                    Category::Build => { assert(filter@[3] == c); },
                }
            }
            assert(!has_item(disp@));
        }
        App {
            rows,
            disp,
            selected: None,
            filter,
            scanning: true,
            status: String::from_str("Starting\u{2026}"),
            last_action: String::new(),
        }
    }

    /// The row under the cursor, if any.
    pub fn current_row(&self) -> (res: Option<usize>)
        ensures
            res == self.current(),
    {
        match self.selected {
            Some(k) => {
                if k < self.disp.len() {
                    match self.disp[k] {
                        Disp::Item(r) => Some(r),
                        Disp::Header(_) => None,
                    }
                } else {
                    None
                }
            },
            None => None,
        }
    }

    /// Lays out the display list afresh and puts the cursor back on row
    /// `prev` if it is shown, else on the first row.
    fn relayout(&mut self, prev: Option<usize>)
        requires
            rank_sorted(old(self).rows@),
            distinct_categories(old(self).filter@),
        ensures
            final(self).wf(),
            final(self).rows@ == old(self).rows@,
            final(self).filter@ == old(self).filter@,
            final(self).scanning == old(self).scanning,
            final(self).status@ == old(self).status@,
            final(self).last_action@ == old(self).last_action@,
            placed(final(self).disp@, prev, final(self).selected),
    {
        self.disp = layout_of(&self.rows, &self.filter);
        let target = match prev {
            Some(r) => line_of(&self.disp, r),
            None => None,
        };
        self.selected = match target {
            Some(k) => Some(k),
            None => first_item(&self.disp),
        };
    }
}

} // verus!

verus! {

impl App {
    /// Adds a newly found item, unticked, at its place in display order
    /// (after every row of equal rank), keeping the cursor on its row.
    pub fn push(&mut self, item: ScanItem)
        requires
            old(self).wf(),
        ensures
            final(self).wf(),
            stably_sorted(old(self).rows@.push(Row { item, selected: false }), final(self).rows@),
            final(self).filter@ == old(self).filter@,
            final(self).scanning == old(self).scanning,
            final(self).status@ == old(self).status@,
            final(self).last_action@ == old(self).last_action@,
            old(self).current() matches Some(r) ==> (final(self).current() matches Some(r2)
                && final(self).rows@[r2 as int] == old(self).rows@[r as int]),
    {
        let prev = self.current_row();
        let n = self.rows.len();
        proof {
            lemma_layout(self.rows@, self.filter@);
            if prev is Some {
                let k = self.selected->Some_0;
                assert(self.disp@[k as int] is Item);
                assert(self.disp@.contains(self.disp@[k as int]));
            }
        }
        let ghost before = self.rows@;
        let row = Row { item, selected: false };
        let key = row.rank_of();
        let mut p: usize = 0;
        while p < n && self.rows[p].rank_of() <= key
            invariant
                p <= n,
                n == self.rows@.len(),
                key == row.rank(),
                forall|i: int| 0 <= i < p ==> self.rows@[i].rank() <= key,
            decreases n - p,
        {
            p = p + 1;
        }
        proof {
            assert forall|i: int| p <= i < before.len() implies before[i].rank() > row.rank() by {
                assert(before[p as int].rank() > key);
            }
            lemma_sorted_is_stable(before);
            lemma_append_step(before, before, row, p as int);
        }
        self.rows.insert(p, row);
        let _ = self.rows.len();
        let moved = match prev {
            Some(r) => if r >= p { Some(r + 1) } else { Some(r) },
            None => None,
        };
        proof {
            if prev is Some {
                let r = prev->Some_0;
                let r2 = moved->Some_0;
                assert(self.rows@[r2 as int] == before[r as int]);
                lemma_layout(self.rows@, self.filter@);
                assert(self.disp@.contains(Disp::Item(r)));
            }
        }
        self.relayout(moved);
    }
}

} // verus!

verus! {

/// Where the cursor goes on a step: from its line (or the top), onto the
/// nearest selectable line after it (`forward`) or before it; when there is
/// none, it stays put.
pub open spec fn stepped(disp: Seq<Disp>, sel: Option<usize>, forward: bool, new_sel: Option<usize>) -> bool {
    let i: int = match sel {
        Some(k) => k as int,
        None => 0,
    };
    if disp.len() == 0 {
        new_sel == sel
    } else if forward {
        if exists|j: int| i < j < disp.len() && disp[j] is Item {
            new_sel matches Some(j) && i < j < disp.len() && disp[j as int] is Item && forall|m: int|
                i < m < j ==> disp[m] is Header
        } else {
            new_sel == sel
        }
    } else {
        if exists|j: int| 0 <= j < i && disp[j] is Item {
            new_sel matches Some(j) && j < i && disp[j as int] is Item && forall|m: int|
                j < m < i ==> disp[m] is Header
        } else {
            new_sel == sel
        }
    }
}

/// The rows keep their items and categories; only ticks may change.
pub open spec fn same_items(a: Seq<Row>, b: Seq<Row>) -> bool {
    a.len() == b.len() && forall|i: int| 0 <= i < a.len() ==> #[trigger] a[i].item == b[i].item
}

/// The ticks after toggling the row under cursor `cur`: that row's tick
/// flips, every other row keeps its tick, and all rows keep their items.
pub open spec fn toggled(old: Seq<Row>, cur: Option<usize>, new: Seq<Row>) -> bool {
    &&& same_items(old, new)
    &&& forall|i: int|
        0 <= i < new.len() ==> #[trigger] new[i].selected == (if cur == Some(i as usize) {
            !old[i].selected
        } else {
            old[i].selected
        })
}

/// The ticks after ticking (or unticking, as `value` says) every row of a
/// category in `filter`: those rows get `value`, the others keep their tick,
/// and all rows keep their items.
pub open spec fn ticked_shown(old: Seq<Row>, filter: Seq<Category>, value: bool, new: Seq<Row>) -> bool {
    &&& same_items(old, new)
    &&& forall|i: int|
        0 <= i < new.len() ==> #[trigger] new[i].selected == (if filter.contains(old[i].item.category) {
            value
        } else {
            old[i].selected
        })
}

impl App {
    /// Moves the cursor to the next (or previous) row line, skipping
    /// headers; at an edge it stays put.
    pub fn step(&mut self, forward: bool)
        requires
            old(self).wf(),
        ensures
            final(self).wf(),
            final(self).rows@ == old(self).rows@,
            final(self).disp@ == old(self).disp@,
            final(self).filter@ == old(self).filter@,
            final(self).scanning == old(self).scanning,
            final(self).status@ == old(self).status@,
            final(self).last_action@ == old(self).last_action@,
            stepped(old(self).disp@, old(self).selected, forward, final(self).selected),
    {
        let n = self.disp.len();
        if n == 0 {
            return;
        }
        let start = match self.selected {
            Some(k) => k,
            None => 0,
        };
        if forward {
            let mut j = start;
            while j + 1 < n
                invariant
                    forward,
                    start <= j < n,
                    n == self.disp@.len(),
                    *self == *old(self),
                    old(self).wf(),
                    start == (match old(self).selected {
                        Some(k) => k,
                        None => 0,
                    }),
                    forall|m: int| start < m <= j ==> self.disp@[m] is Header,
                decreases n - j,
            {
                j = j + 1;
                match self.disp[j] {
                    Disp::Item(_) => {
                        proof {
                            assert(old(self).disp@[j as int] is Item);
                        }
                        self.selected = Some(j);
                        return;
                    },
                    Disp::Header(_) => {},
                }
            }
        } else {
            let mut j = start;
            while j > 0
                invariant
                    !forward,
                    j <= start,
                    start < n,
                    n == self.disp@.len(),
                    *self == *old(self),
                    old(self).wf(),
                    start == (match old(self).selected {
                        Some(k) => k,
                        None => 0,
                    }),
                    forall|m: int| j <= m < start ==> self.disp@[m] is Header,
                decreases j,
            {
                j = j - 1;
                match self.disp[j] {
                    Disp::Item(_) => {
                        proof {
                            assert(old(self).disp@[j as int] is Item);
                        }
                        self.selected = Some(j);
                        return;
                    },
                    Disp::Header(_) => {},
                }
            }
        }
    }

    /// Ticks or unticks the row under the cursor.
    pub fn toggle(&mut self)
        requires
            old(self).wf(),
        ensures
            final(self).wf(),
            same_items(old(self).rows@, final(self).rows@),
            forall|i: int|
                0 <= i < final(self).rows@.len() ==> #[trigger] final(self).rows@[i].selected == (if old(
                    self,
                ).current() == Some(i as usize) {
                    !old(self).rows@[i].selected
                } else {
                    old(self).rows@[i].selected
                }),
            final(self).disp@ == old(self).disp@,
            final(self).selected == old(self).selected,
            final(self).filter@ == old(self).filter@,
            final(self).scanning == old(self).scanning,
            final(self).status@ == old(self).status@,
            final(self).last_action@ == old(self).last_action@,
    {
        let _ = self.rows.len();
        match self.current_row() {
            Some(r) => {
                proof {
                    lemma_layout(self.rows@, self.filter@);
                    let k = self.selected->Some_0;
                    assert(self.disp@[k as int] is Item);
                }
                let ghost before = self.rows@;
                let mut row = self.rows.remove(r);
                row.selected = !row.selected;
                self.rows.insert(r, row);
                proof {
                    assert forall|i: int| 0 <= i < before.len() implies self.rows@[i].item.category
                        == before[i].item.category by {}
                    lemma_layout_same_categories(before, self.rows@, self.filter@);
                    assert(rank_sorted(self.rows@)) by {
                        assert forall|i: int, j: int| 0 <= i < j < self.rows@.len() implies self.rows@[i].rank()
                            <= self.rows@[j].rank() by {
                            assert(self.rows@[i].item == before[i].item);
                            assert(self.rows@[j].item == before[j].item);
                        }
                    }
                }
            },
            None => {},
        }
    }

    /// Ticks (or unticks) every row of a shown category.
    pub fn set_all(&mut self, value: bool)
        requires
            old(self).wf(),
        ensures
            final(self).wf(),
            same_items(old(self).rows@, final(self).rows@),
            forall|i: int|
                0 <= i < final(self).rows@.len() ==> #[trigger] final(self).rows@[i].selected == (if old(
                    self,
                ).filter@.contains(old(self).rows@[i].item.category) {
                    value
                } else {
                    old(self).rows@[i].selected
                }),
            final(self).disp@ == old(self).disp@,
            final(self).selected == old(self).selected,
            final(self).filter@ == old(self).filter@,
            final(self).scanning == old(self).scanning,
            final(self).status@ == old(self).status@,
            final(self).last_action@ == old(self).last_action@,
    {
        let ghost before = self.rows@;
        let n = self.rows.len();
        let mut i: usize = 0;
        while i < n
            invariant
                i <= n,
                n == self.rows@.len(),
                n == before.len(),
                before == old(self).rows@,
                old(self).wf(),
                self.disp@ == old(self).disp@,
                self.selected == old(self).selected,
                self.filter@ == old(self).filter@,
                self.scanning == old(self).scanning,
                self.status@ == old(self).status@,
                self.last_action@ == old(self).last_action@,
                forall|j: int| 0 <= j < n ==> #[trigger] self.rows@[j].item == before[j].item,
                forall|j: int|
                    0 <= j < i ==> #[trigger] self.rows@[j].selected == (if self.filter@.contains(
                        before[j].item.category,
                    ) {
                        value
                    } else {
                        before[j].selected
                    }),
                forall|j: int| i <= j < n ==> #[trigger] self.rows@[j].selected == before[j].selected,
            decreases n - i,
        {
            if shows(&self.filter, self.rows[i].item.category) {
                let ghost mid = self.rows@;
                let mut row = self.rows.remove(i);
                row.selected = value;
                self.rows.insert(i, row);
                proof {
                    assert forall|j: int| 0 <= j < n && j != i implies self.rows@[j] == mid[j] by {}
                }
            }
            i = i + 1;
        }
        proof {
            assert forall|i: int| 0 <= i < before.len() implies self.rows@[i].item.category
                == before[i].item.category by {
                assert(self.rows@[i].item == before[i].item);
            }
            lemma_layout_same_categories(before, self.rows@, self.filter@);
            assert(rank_sorted(self.rows@)) by {
                assert forall|i: int, j: int| 0 <= i < j < self.rows@.len() implies self.rows@[i].rank()
                    <= self.rows@[j].rank() by {
                    assert(self.rows@[i].item == before[i].item);
                    assert(self.rows@[j].item == before[j].item);
                }
            }
        }
    }

    /// Shows or hides category `c`, keeping the cursor on its row when that
    /// row stays shown.
    pub fn toggle_filter(&mut self, c: Category)
        requires
            old(self).wf(),
        ensures
            final(self).wf(),
            final(self).rows@ == old(self).rows@,
            final(self).filter@.contains(c) == !old(self).filter@.contains(c),
            forall|d: Category| d != c ==> final(self).filter@.contains(d) == old(self).filter@.contains(d),
            placed(final(self).disp@, old(self).current(), final(self).selected),
            final(self).scanning == old(self).scanning,
            final(self).status@ == old(self).status@,
            final(self).last_action@ == old(self).last_action@,
    {
        let prev = self.current_row();
        let ghost before = self.filter@;
        let n = self.filter.len();
        let mut i: usize = 0;
        while i < n
            invariant
                i <= n,
                n == self.filter@.len(),
                before == self.filter@,
                *self == *old(self),
                old(self).wf(),
                prev == old(self).current(),
                forall|j: int| 0 <= j < i ==> before[j] != c,
            decreases n - i,
        {
            if self.filter[i] == c {
                self.filter.remove(i);
                proof {
                    let after = self.filter@;
                    assert(after =~= before.remove(i as int));
                    assert forall|d: Category| after.contains(d) == (before.contains(d) && d != c) by {
                        if after.contains(d) {
                            let k = choose|k: int| 0 <= k < after.len() && after[k] == d;
                            if k < i {
                                assert(before[k] == d);
                            } else {
                                assert(before[k + 1] == d);
                                assert(k + 1 != i);
                            }
                        }
                        if before.contains(d) && d != c {
                            let k = choose|k: int| 0 <= k < before.len() && before[k] == d;
                            assert(k != i);
                            if k < i {
                                assert(after[k] == d);
                            } else {
                                assert(after[k - 1] == d);
                            }
                        }
                    }
                    assert(before[i as int] == c);
                    assert(distinct_categories(after)) by {
                        assert forall|x: int, y: int|
                            0 <= x < after.len() && 0 <= y < after.len() && x != y implies after[x]
                            != after[y] by {
                            let bx = if x < i { x } else { x + 1 };
                            let by_ = if y < i { y } else { y + 1 };
                            assert(after[x] == before[bx]);
                            assert(after[y] == before[by_]);
                        }
                    }
                }
                self.relayout(prev);
                return;
            }
            i = i + 1;
        }
        self.filter.push(c);
        proof {
            let after = self.filter@;
            assert forall|d: Category| after.contains(d) == (before.contains(d) || d == c) by {
                if after.contains(d) {
                    let k = choose|k: int| 0 <= k < after.len() && after[k] == d;
                    if k < before.len() {
                        assert(before[k] == d);
                    }
                }
                if before.contains(d) {
                    let k = choose|k: int| 0 <= k < before.len() && before[k] == d;
                    assert(after[k] == d);
                }
                if d == c {
                    assert(after[before.len() as int] == c);
                }
            }
            assert(!before.contains(c));
            assert(distinct_categories(after)) by {
                assert forall|x: int, y: int|
                    0 <= x < after.len() && 0 <= y < after.len() && x != y implies after[x] != after[y] by {
                    if x < before.len() && y < before.len() {
                        assert(after[x] == before[x] && after[y] == before[y]);
                    } else if x < before.len() {
                        assert(after[x] == before[x]);
                        assert(before.contains(before[x]));
                    } else if y < before.len() {
                        assert(after[y] == before[y]);
                        assert(before.contains(before[y]));
                    }
                }
            }
        }
        self.relayout(prev);
    }
}

} // verus!

verus! {

/// The exact total size of the rows `pred` picks.
pub open spec fn size_of_rows(rows: Seq<Row>, pred: spec_fn(Row) -> bool) -> nat
    decreases rows.len(),
{
    if rows.len() == 0 {
        0
    } else {
        size_of_rows(rows.drop_last(), pred) + (if pred(rows.last()) {
            rows.last().item.size as nat
        } else {
            0nat
        })
    }
}

/// How many rows `pred` picks.
pub open spec fn count_of_rows(rows: Seq<Row>, pred: spec_fn(Row) -> bool) -> nat
    decreases rows.len(),
{
    if rows.len() == 0 {
        0
    } else {
        count_of_rows(rows.drop_last(), pred) + (if pred(rows.last()) { 1nat } else { 0nat })
    }
}

/// A choice of rows to add up.
pub enum Tally {
    /// Rows of a shown category.
    Shown,
    /// Ticked rows.
    Ticked,
    /// Rows of one category, shown or not.
    Of(Category),
}

/// The rows a tally picks, given the shown categories.
pub open spec fn picks(filter: Seq<Category>, t: Tally) -> spec_fn(Row) -> bool {
    |r: Row|
        match t {
            Tally::Shown => filter.contains(r.item.category),
            Tally::Ticked => r.selected,
            Tally::Of(c) => r.item.category == c,
        }
}

/// Rows of a shown category.
pub open spec fn shown_rows(filter: Seq<Category>) -> spec_fn(Row) -> bool {
    picks(filter, Tally::Shown)
}

/// Ticked rows.
pub open spec fn ticked_rows() -> spec_fn(Row) -> bool {
    |r: Row| r.selected
}

/// Rows of category `c`.
pub open spec fn rows_in(c: Category) -> spec_fn(Row) -> bool {
    |r: Row| r.item.category == c
}

impl App {
    /// The wrapped total size and the count of the rows `t` picks.
    fn tally(&self, t: Tally) -> (res: (u64, usize))
        ensures
            res.0 == wrap64(size_of_rows(self.rows@, picks(self.filter@, t))),
            res.1 == count_of_rows(self.rows@, picks(self.filter@, t)),
    {
        let ghost pred = picks(self.filter@, t);
        let n = self.rows.len();
        let mut acc: u64 = 0;
        let mut count: usize = 0;
        let mut i: usize = 0;
        while i < n
            invariant
                i <= n,
                n == self.rows@.len(),
                pred == picks(self.filter@, t),
                acc == wrap64(size_of_rows(self.rows@.subrange(0, i as int), pred)),
                count == count_of_rows(self.rows@.subrange(0, i as int), pred),
                count <= i,
            decreases n - i,
        {
            let ghost pre = self.rows@.subrange(0, i as int);
            proof {
                assert(self.rows@.subrange(0, i + 1).drop_last() =~= pre);
            }
            let row = &self.rows[i];
            let hit = match t {
                Tally::Shown => shows(&self.filter, row.item.category),
                Tally::Ticked => row.selected,
                Tally::Of(c) => row.item.category == c,
            };
            if hit {
                proof {
                    lemma_wrap_step(size_of_rows(pre, pred), acc, row.item.size);
                }
                acc = add_wrapping(acc, row.item.size);
                count = count + 1;
            }
            i = i + 1;
        }
        assert(self.rows@.subrange(0, i as int) =~= self.rows@);
        (acc, count)
    }

    /// Total size of the rows of shown categories.
    pub fn visible_total(&self) -> (res: u64)
        ensures
            res == wrap64(size_of_rows(self.rows@, shown_rows(self.filter@))),
    {
        self.tally(Tally::Shown).0
    }

    /// Total size of the ticked rows.
    pub fn selected_size(&self) -> (res: u64)
        ensures
            res == wrap64(size_of_rows(self.rows@, ticked_rows())),
    {
        let r = self.tally(Tally::Ticked).0;
        assert(picks(self.filter@, Tally::Ticked) =~= ticked_rows());
        r
    }

    /// How many rows are ticked.
    pub fn selected_count(&self) -> (res: usize)
        ensures
            res == count_of_rows(self.rows@, ticked_rows()),
    {
        let r = self.tally(Tally::Ticked).1;
        assert(picks(self.filter@, Tally::Ticked) =~= ticked_rows());
        r
    }

    /// Total size of the rows of category `c`, shown or not.
    pub fn subtotal(&self, c: Category) -> (res: u64)
        ensures
            res == wrap64(size_of_rows(self.rows@, rows_in(c))),
    {
        let r = self.tally(Tally::Of(c)).0;
        assert(picks(self.filter@, Tally::Of(c)) =~= rows_in(c));
        r
    }
}

} // verus!

verus! {

/// The paths of the ticked rows, row by row.
pub open spec fn ticked_paths(rows: Seq<Row>) -> Seq<Seq<char>>
    decreases rows.len(),
{
    if rows.len() == 0 {
        Seq::empty()
    } else {
        ticked_paths(rows.drop_last()) + (if rows.last().selected {
            rows.last().item.paths@.map_values(|p: String| p@)
        } else {
            Seq::empty()
        })
    }
}

/// The rows kept after a deletion: every unticked row, and every ticked
/// row whose path is still there (`there[i]` for row `i`).
pub open spec fn kept(rows: Seq<Row>, there: Seq<bool>) -> Seq<Row>
    decreases rows.len(),
{
    if rows.len() == 0 {
        Seq::empty()
    } else {
        let rest = kept(rows.drop_last(), there);
        if !rows.last().selected || there[rows.len() - 1] {
            rest.push(rows.last())
        } else {
            rest
        }
    }
}

/// What the view reports after a deletion.
pub open spec fn moved_text(removed: nat, reclaimed: u64) -> Seq<char> {
    "Moved "@ + decimal(removed) + " item(s) to Recycle Bin \u{b7} freed ~"@ + human_size_spec(reclaimed)
}

proof fn lemma_kept_len(rows: Seq<Row>, there: Seq<bool>)
    ensures
        kept(rows, there).len() <= rows.len(),
    decreases rows.len(),
{
    if rows.len() > 0 {
        lemma_kept_len(rows.drop_last(), there);
    }
}

impl App {
    /// The paths to send to the Recycle Bin: every path of every ticked row.
    /// When there are none, the view says so and nothing is to be done.
    pub fn delete_request(&mut self) -> (res: Vec<String>)
        requires
            old(self).wf(),
        ensures
            final(self).wf(),
            res@.map_values(|p: String| p@) == ticked_paths(old(self).rows@),
            final(self).rows@ == old(self).rows@,
            final(self).disp@ == old(self).disp@,
            final(self).selected == old(self).selected,
            final(self).filter@ == old(self).filter@,
            final(self).scanning == old(self).scanning,
            final(self).status@ == old(self).status@,
            res@.len() == 0 ==> final(self).last_action@ == "Nothing selected"@,
            res@.len() > 0 ==> final(self).last_action@ == old(self).last_action@,
    {
        let mut out: Vec<String> = Vec::new();
        let n = self.rows.len();
        let mut i: usize = 0;
        while i < n
            invariant
                i <= n,
                n == self.rows@.len(),
                out@.map_values(|p: String| p@) == ticked_paths(self.rows@.subrange(0, i as int)),
            decreases n - i,
        {
            let ghost before = out@;
            proof {
                assert(self.rows@.subrange(0, i + 1).drop_last() =~= self.rows@.subrange(0, i as int));
            }
            if self.rows[i].selected {
                let paths = &self.rows[i].item.paths;
                let mut k: usize = 0;
                while k < paths.len()
                    invariant
                        k <= paths@.len(),
                        out@.map_values(|p: String| p@) == before.map_values(|p: String| p@)
                            + paths@.subrange(0, k as int).map_values(|p: String| p@),
                    decreases paths@.len() - k,
                {
                    let ghost o = out@;
                    let c = paths[k].clone();
                    assert(c@ == paths@[k as int]@);
                    out.push(c);
                    proof {
                        assert(out@.map_values(|p: String| p@) =~= o.map_values(|p: String| p@).push(c@));
                        assert(paths@.subrange(0, k + 1).map_values(|p: String| p@) =~= paths@.subrange(
                            0,
                            k as int,
                        ).map_values(|p: String| p@).push(c@));
                    }
                    k = k + 1;
                    assert(out@.map_values(|p: String| p@) =~= before.map_values(|p: String| p@)
                        + paths@.subrange(0, k as int).map_values(|p: String| p@));
                }
                assert(paths@.subrange(0, k as int) =~= paths@);
            } else {
                assert(ticked_paths(self.rows@.subrange(0, i + 1)) =~= ticked_paths(
                    self.rows@.subrange(0, i as int),
                ));
            }
            i = i + 1;
        }
        assert(self.rows@.subrange(0, i as int) =~= self.rows@);
        if out.len() == 0 {
            self.last_action = String::from_str("Nothing selected");
        }
        out
    }

    /// Records a deletion: `there[i]` tells whether the path of row `i`
    /// still exists. Ticked rows whose path is gone are dropped, the cursor
    /// stays on its row if that row is kept, and the view reports how many
    /// rows went and how much the ticked rows held.
    pub fn delete_done(&mut self, there: &Vec<bool>)
        requires
            old(self).wf(),
            there@.len() == old(self).rows@.len(),
        ensures
            final(self).wf(),
            final(self).rows@ == kept(old(self).rows@, there@),
            final(self).filter@ == old(self).filter@,
            final(self).scanning == old(self).scanning,
            final(self).status@ == old(self).status@,
            final(self).last_action@ == moved_text(
                (old(self).rows@.len() - final(self).rows@.len()) as nat,
                wrap64(size_of_rows(old(self).rows@, ticked_rows())),
            ),
            old(self).current() matches Some(r) ==> ((!old(self).rows@[r as int].selected
                || there@[r as int]) ==> (final(self).current() matches Some(r2)
                && final(self).rows@[r2 as int] == old(self).rows@[r as int])),
    {
        let reclaimed = self.selected_size();
        let prev = self.current_row();
        let before_len = self.rows.len();
        proof {
            lemma_layout(self.rows@, self.filter@);
            if prev is Some {
                let k = self.selected->Some_0;
                assert(self.disp@[k as int] is Item);
                assert(self.disp@.contains(self.disp@[k as int]));
            }
        }
        let mut src: Vec<Row> = Vec::new();
        std::mem::swap(&mut src, &mut self.rows);
        let ghost orig = src@;
        let mut out: Vec<Row> = Vec::new();
        let mut moved: Option<usize> = None;
        let mut i: usize = 0;
        while src.len() > 0
            invariant
                i <= orig.len(),
                orig.len() == before_len,
                there@.len() == orig.len(),
                src@ == orig.subrange(i as int, orig.len() as int),
                out@ == kept(orig.subrange(0, i as int), there@),
                rank_sorted(orig),
                rank_sorted(out@),
                forall|a: int, m: int|
                    0 <= a < out@.len() && i <= m < orig.len() ==> out@[a].rank() <= orig[m].rank(),
                prev matches Some(r) ==> ((r < i && (!orig[r as int].selected || there@[r as int])) ==> (
                moved matches Some(m) && m < out@.len() && out@[m as int] == orig[r as int])),
                prev matches Some(r) ==> r < orig.len(),
            decreases src@.len(),
        {
            let row = src.remove(0);
            proof {
                assert(row == orig[i as int]);
                assert(orig.subrange(0, i + 1).drop_last() =~= orig.subrange(0, i as int));
                assert(orig.subrange(0, i + 1).last() == orig[i as int]);
                lemma_kept_len(orig.subrange(0, i as int), there@);
            }
            if !row.selected || there[i] {
                if prev == Some(i) {
                    moved = Some(out.len());
                }
                let ghost prev_out = out@;
                out.push(row);
                proof {
                    assert forall|a: int, b: int| 0 <= a < b < out@.len() implies out@[a].rank() <= out@[b].rank() by {
                        if b < prev_out.len() {
                            assert(out@[a] == prev_out[a] && out@[b] == prev_out[b]);
                        } else {
                            assert(out@[a] == prev_out[a]);
                        }
                    }
                    assert forall|a: int, m: int| 0 <= a < out@.len() && i + 1 <= m < orig.len() implies out@[a].rank()
                        <= orig[m].rank() by {
                        if a < prev_out.len() {
                            assert(out@[a] == prev_out[a]);
                        }
                    }
                }
            }
            i = i + 1;
        }
        proof {
            assert(orig.subrange(0, i as int) =~= orig);
            lemma_kept_len(orig, there@);
        }
        let removed = before_len - out.len();
        self.rows = out;
        self.relayout(moved);
        proof {
            if prev is Some {
                let r = prev->Some_0;
                let ghost rows = self.rows@;
                if !orig[r as int].selected || there@[r as int] {
                    lemma_layout(self.rows@, self.filter@);
                    let m = moved->Some_0;
                    assert(self.filter@.contains(orig[r as int].item.category));
                    assert(self.disp@.contains(Disp::Item(m)));
                }
            }
        }
        let mut text = String::from_str("Moved ");
        text.append(decimal_string(removed as u128).as_str());
        text.append(" item(s) to Recycle Bin \u{b7} freed ~");
        text.append(human_size(reclaimed).as_str());
        self.last_action = text;
    }
}

} // verus!

verus! {

/// A key press, as far as the view cares.
#[derive(Clone, Copy, Debug, PartialEq, Eq, Structural)]
pub enum Key {
    Char(char),
    Up,
    Down,
    Esc,
    Other,
}

/// What the caller must do after a key press.
pub enum Outcome {
    /// Leave the view.
    Quit,
    /// Nothing more: redraw and wait for the next event.
    Continue,
    /// Start a fresh scan; the rows were cleared.
    Rescan,
    /// Send these paths to the Recycle Bin, then report with `delete_done`.
    Delete(Vec<String>),
}

/// The command a key stands for.
pub enum KeyCommand {
    Quit,
    Down,
    Up,
    Toggle,
    TickAll,
    TickNone,
    Delete,
    Filter(Category),
    Rescan,
    Nothing,
}

/// The key bindings: `q`/Esc quit, ↓/`j` and ↑/`k` move, space ticks,
/// `a`/`n` tick all/none, `d` deletes, `1`-`4` toggle a category, `r`
/// rescans.
pub open spec fn command_of(key: Key) -> KeyCommand {
    match key {
        Key::Esc => KeyCommand::Quit,
        Key::Down => KeyCommand::Down,
        Key::Up => KeyCommand::Up,
        Key::Char(c) => if c == 'q' {
            KeyCommand::Quit
        } else if c == 'j' {
            KeyCommand::Down
        } else if c == 'k' {
            KeyCommand::Up
        } else if c == ' ' {
            KeyCommand::Toggle
        } else if c == 'a' {
            KeyCommand::TickAll
        } else if c == 'n' {
            KeyCommand::TickNone
        } else if c == 'd' {
            KeyCommand::Delete
        } else if c == '1' {
            KeyCommand::Filter(Category::Node)
        } else if c == '2' {
            KeyCommand::Filter(Category::Python)
        } else if c == '3' {
            KeyCommand::Filter(Category::Model)
        } else if c == '4' {
            KeyCommand::Filter(Category::Build)
        } else if c == 'r' {
            KeyCommand::Rescan
        } else {
            KeyCommand::Nothing
        },
        Key::Other => KeyCommand::Nothing,
    }
}

/// The command a key stands for.
pub fn command_for(key: Key) -> (res: KeyCommand)
    ensures
        res == command_of(key),
{
    match key {
        Key::Esc => KeyCommand::Quit,
        Key::Down => KeyCommand::Down,
        Key::Up => KeyCommand::Up,
        Key::Char(c) => if c == 'q' {
            KeyCommand::Quit
        } else if c == 'j' {
            KeyCommand::Down
        } else if c == 'k' {
            KeyCommand::Up
        } else if c == ' ' {
            KeyCommand::Toggle
        } else if c == 'a' {
            KeyCommand::TickAll
        } else if c == 'n' {
            KeyCommand::TickNone
        } else if c == 'd' {
            KeyCommand::Delete
        } else if c == '1' {
            KeyCommand::Filter(Category::Node)
        } else if c == '2' {
            KeyCommand::Filter(Category::Python)
        } else if c == '3' {
            KeyCommand::Filter(Category::Model)
        } else if c == '4' {
            KeyCommand::Filter(Category::Build)
        } else if c == 'r' {
            KeyCommand::Rescan
        } else {
            KeyCommand::Nothing
        },
        Key::Other => KeyCommand::Nothing,
    }
}

impl App {
    /// Clears the rows for a fresh scan.
    pub fn rescan(&mut self)
        requires
            old(self).wf(),
        ensures
            final(self).wf(),
            final(self).rows@.len() == 0,
            final(self).selected is None,
            final(self).filter@ == old(self).filter@,
            final(self).scanning,
            final(self).status@ == "Rescanning\u{2026}"@,
            final(self).last_action@ == Seq::<char>::empty(),
    {
        self.rows.clear();
        self.relayout(None);
        proof {
            lemma_layout(self.rows@, self.filter@);
            assert(!has_item(self.disp@)) by {
                assert forall|k: int| 0 <= k < self.disp@.len() && self.disp@[k] is Item implies false by {
                    assert(self.disp@[k]->Item_0 < self.rows@.len());
                }
            }
        }
        self.scanning = true;
        self.status = String::from_str("Rescanning\u{2026}");
        self.last_action = String::new();
    }

    /// Takes in one message of the scan: a found item is added, a status
    /// line replaces the status, and the end of the scan is noted.
    pub fn on_msg(&mut self, msg: ScanMsg)
        requires
            old(self).wf(),
        ensures
            final(self).wf(),
            match msg {
                ScanMsg::Item(it) => stably_sorted(
                    old(self).rows@.push(Row { item: it, selected: false }),
                    final(self).rows@,
                ) && final(self).scanning == old(self).scanning && (old(self).current() matches Some(r)
                    ==> (final(self).current() matches Some(r2) && final(self).rows@[r2 as int] == old(
                    self,
                ).rows@[r as int])),
                ScanMsg::Status(s) => final(self).status@ == s@ && final(self).rows@ == old(self).rows@
                    && final(self).scanning == old(self).scanning,
                ScanMsg::Done => !final(self).scanning && final(self).rows@ == old(self).rows@,
            },
    {
        match msg {
            ScanMsg::Item(it) => self.push(it),
            ScanMsg::Status(s) => self.status = s,
            ScanMsg::Done => self.scanning = false,
        }
    }

    /// The scan ended without saying so (its sender went away).
    pub fn scan_ended(&mut self)
        requires
            old(self).wf(),
        ensures
            final(self).wf(),
            !final(self).scanning,
            final(self).rows@ == old(self).rows@,
    {
        self.scanning = false;
    }

    /// Acts on one key press and tells the caller what else to do.
    pub fn on_key(&mut self, key: Key) -> (res: Outcome)
        requires
            old(self).wf(),
        ensures
            final(self).wf(),
            match command_of(key) {
                KeyCommand::Quit => res is Quit && *final(self) == *old(self),
                KeyCommand::Down => res is Continue && stepped(
                    old(self).disp@,
                    old(self).selected,
                    true,
                    final(self).selected,
                ) && final(self).rows@ == old(self).rows@,
                KeyCommand::Up => res is Continue && stepped(
                    old(self).disp@,
                    old(self).selected,
                    false,
                    final(self).selected,
                ) && final(self).rows@ == old(self).rows@,
                KeyCommand::Toggle => res is Continue && toggled(
                    old(self).rows@,
                    old(self).current(),
                    final(self).rows@,
                ) && final(self).selected == old(self).selected && final(self).filter@ == old(self).filter@,
                KeyCommand::TickAll => res is Continue && ticked_shown(
                    old(self).rows@,
                    old(self).filter@,
                    true,
                    final(self).rows@,
                ) && final(self).selected == old(self).selected && final(self).filter@ == old(self).filter@,
                KeyCommand::TickNone => res is Continue && ticked_shown(
                    old(self).rows@,
                    old(self).filter@,
                    false,
                    final(self).rows@,
                ) && final(self).selected == old(self).selected && final(self).filter@ == old(self).filter@,
                KeyCommand::Delete => match res {
                    Outcome::Delete(paths) => paths@.len() > 0 && paths@.map_values(|p: String| p@)
                        == ticked_paths(old(self).rows@),
                    Outcome::Continue => ticked_paths(old(self).rows@).len() == 0
                        && final(self).last_action@ == "Nothing selected"@,
                    _ => false,
                },
                KeyCommand::Filter(c) => res is Continue && final(self).filter@.contains(c) == !old(
                    self,
                ).filter@.contains(c) && (forall|d: Category|
                    d != c ==> final(self).filter@.contains(d) == old(self).filter@.contains(d))
                    && final(self).rows@ == old(self).rows@ && placed(
                    final(self).disp@,
                    old(self).current(),
                    final(self).selected,
                ),
                KeyCommand::Rescan => res is Rescan && final(self).rows@.len() == 0 && final(self).scanning
                    && final(self).status@ == "Rescanning\u{2026}"@ && final(self).last_action@ == Seq::<
                    char,
                >::empty() && final(self).filter@ == old(self).filter@ && final(self).selected is None,
                KeyCommand::Nothing => res is Continue && *final(self) == *old(self),
            },
    {
        match command_for(key) {
            KeyCommand::Quit => Outcome::Quit,
            KeyCommand::Down => {
                self.step(true);
                Outcome::Continue
            },
            KeyCommand::Up => {
                self.step(false);
                Outcome::Continue
            },
            KeyCommand::Toggle => {
                self.toggle();
                Outcome::Continue
            },
            KeyCommand::TickAll => {
                self.set_all(true);
                Outcome::Continue
            },
            KeyCommand::TickNone => {
                self.set_all(false);
                Outcome::Continue
            },
            KeyCommand::Delete => {
                let paths = self.delete_request();
                if paths.len() == 0 {
                    Outcome::Continue
                } else {
                    Outcome::Delete(paths)
                }
            },
            KeyCommand::Filter(c) => {
                self.toggle_filter(c);
                Outcome::Continue
            },
            KeyCommand::Rescan => {
                self.rescan();
                Outcome::Rescan
            },
            KeyCommand::Nothing => Outcome::Continue,
        }
    }
}

} // verus!

verus! {

/// `s` cut to at most `max` characters: when longer, its first `max - 1`
/// characters and an ellipsis.
pub open spec fn truncated(s: Seq<char>, max: nat) -> Seq<char> {
    if s.len() <= max {
        s
    } else {
        s.subrange(0, if max >= 1 { max - 1 } else { 0 }) + seq!['\u{2026}']
    }
}

/// `s` cut to at most `max` characters, ending in an ellipsis when cut.
pub fn truncate(s: &str, max: usize) -> (res: String)
    ensures
        res@ == truncated(s@, max as nat),
{
    let n = s.unicode_len();
    if n <= max {
        String::from_str(s)
    } else {
        let keep = if max >= 1 { max - 1 } else { 0 };
        let mut out = String::from_str(s.substring_char(0, keep));
        let dots = "\u{2026}";
        proof {
            reveal_strlit("\u{2026}");
        }
        out.append(dots);
        assert(out@ =~= truncated(s@, max as nat));
        out
    }
}

/// What a row's last column shows: its label when it gathers several
/// paths, else its kind in a 13-wide column and its path.
pub open spec fn detail_text(it: ScanItem) -> Seq<char> {
    if it.paths@.len() > 1 {
        it.label@
    } else {
        pad_right(it.kind@, 13) + " "@ + it.primary_path()
    }
}

/// The four cells of a row line at time `now`: the tick box, the size, the
/// age, and the detail cut to 70 characters.
pub open spec fn row_cells_text(r: Row, now: Timestamp) -> (Seq<char>, Seq<char>, Seq<char>, Seq<char>) {
    (
        "   "@ + (if r.selected { "[x]"@ } else { "[ ]"@ }) + " "@,
        pad_left(human_size_spec(r.item.size), 9) + " "@,
        pad_right(age_text(r.item.modified, now), 8) + " "@,
        truncated(detail_text(r.item), 70),
    )
}

/// The cells of a row line at time `now`.
pub fn row_cells(r: &Row, now: Timestamp) -> (res: (String, String, String, String))
    ensures
        (res.0@, res.1@, res.2@, res.3@) == row_cells_text(*r, now),
{
    let mut check = String::from_str("   ");
    if r.selected {
        check.append("[x]");
    } else {
        check.append("[ ]");
    }
    check.append(" ");
    let mut size = padded_left(human_size(r.item.size).as_str(), 9);
    size.append(" ");
    let mut age = padded_right(age_label(r.item.modified, now).as_str(), 8);
    age.append(" ");
    let detail = if r.item.count() > 1 {
        r.item.label.clone()
    } else {
        let mut d = padded_right(r.item.kind.as_str(), 13);
        d.append(" ");
        d.append(r.item.primary());
        d
    };
    (check, size, age, truncate(detail.as_str(), 70))
}

impl App {
    /// The two parts of a category header line: the title, then the
    /// category's subtotal.
    pub fn header_cells(&self, c: Category) -> (res: (String, String))
        ensures
            res.0@ == "  "@ + category_title(c) + " "@,
            res.1@ == "\u{2014} "@ + human_size_spec(wrap64(size_of_rows(self.rows@, rows_in(c)))),
    {
        let mut title = String::from_str("  ");
        title.append(c.title());
        title.append(" ");
        let mut sub = String::from_str("\u{2014} ");
        sub.append(human_size(self.subtotal(c)).as_str());
        (title, sub)
    }

    /// The title of the list: how many rows and the size of the shown ones.
    pub fn list_title(&self) -> (res: String)
        ensures
            res@ == " "@ + decimal(self.rows@.len()) + " items \u{b7} "@ + human_size_spec(
                wrap64(size_of_rows(self.rows@, shown_rows(self.filter@))),
            ) + " "@,
    {
        let mut t = String::from_str(" ");
        t.append(decimal_string(self.rows.len() as u128).as_str());
        t.append(" items \u{b7} ");
        t.append(human_size(self.visible_total()).as_str());
        t.append(" ");
        t
    }

    /// The scan state shown in the header: the status while scanning, else
    /// that the scan is complete.
    pub fn scan_state(&self) -> (res: String)
        ensures
            res@ == "  ["@ + (if self.scanning {
                "scanning\u{2026} "@ + self.status@
            } else {
                "scan complete"@
            }) + "]"@,
    {
        let mut t = String::from_str("  [");
        if self.scanning {
            t.append("scanning\u{2026} ");
            t.append(self.status.as_str());
        } else {
            t.append("scan complete");
        }
        t.append("]");
        t
    }

    /// The footer's totals: the size shown, and the size and count ticked.
    pub fn footer_cells(&self) -> (res: (String, String))
        ensures
            res.0@ == " "@ + human_size_spec(wrap64(size_of_rows(self.rows@, shown_rows(self.filter@))))
                + " visible "@,
            res.1@ == human_size_spec(wrap64(size_of_rows(self.rows@, ticked_rows()))) + " in "@ + decimal(
                count_of_rows(self.rows@, ticked_rows()),
            ) + " selected "@,
    {
        let mut a = String::from_str(" ");
        a.append(human_size(self.visible_total()).as_str());
        a.append(" visible ");
        let mut b = human_size(self.selected_size());
        b.append(" in ");
        b.append(decimal_string(self.selected_count() as u128).as_str());
        b.append(" selected ");
        (a, b)
    }
}

/// The label of the filter switch for category `c` at position `i`.
pub fn filter_label(i: usize, c: Category) -> (res: String)
    requires
        i < 4,
    ensures
        res@ == "["@ + decimal((i + 1) as nat) + "]"@ + category_label(c) + " "@,
{
    let mut t = String::from_str("[");
    t.append(decimal_string((i + 1) as u128).as_str());
    t.append("]");
    t.append(c.label());
    t.append(" ");
    t
}

} // verus!

verus! {

/// The terminal colours the interface paints categories with.
#[derive(Clone, Copy, Debug, PartialEq, Eq, Structural)]
pub enum Tint {
    Red,
    Blue,
    Magenta,
    Green,
}

/// The colour of each category.
pub open spec fn category_tint(c: Category) -> Tint {
    match c {
        Category::Node => Tint::Red,
        Category::Python => Tint::Blue,
        Category::Model => Tint::Magenta,
        Category::Build => Tint::Green,
    }
}

/// The colour a category is painted with.
pub fn category_color(c: Category) -> (res: Tint)
    ensures
        res == category_tint(c),
{
    match c {
        Category::Node => Tint::Red,
        Category::Python => Tint::Blue,
        Category::Model => Tint::Magenta,
        Category::Build => Tint::Green,
    }
}

} // verus!

verus! {

/// The digit key of category `c`: the one its filter switch shows, `1` for
/// Node to `4` for Build in display order.
pub open spec fn filter_key(c: Category) -> char {
    decimal(category_rank(c) + 1)[0]
}

/// The key bindings: `q` and Esc quit; ↓ and `j` move down, ↑ and `k` up;
/// space ticks the row under the cursor; `a` ticks every shown row and `n`
/// unticks them; `d` deletes; `r` rescans; and each category's filter is
/// toggled by the digit of its position (the one `filter_label` shows).
/// Every other key does nothing.
pub proof fn lemma_key_bindings(key: Key)
    ensures
        command_of(key) is Quit <==> (key == Key::Esc || key == Key::Char('q')),
        command_of(key) is Down <==> (key == Key::Down || key == Key::Char('j')),
        command_of(key) is Up <==> (key == Key::Up || key == Key::Char('k')),
        command_of(key) is Toggle <==> key == Key::Char(' '),
        command_of(key) is TickAll <==> key == Key::Char('a'),
        command_of(key) is TickNone <==> key == Key::Char('n'),
        command_of(key) is Delete <==> key == Key::Char('d'),
        command_of(key) is Rescan <==> key == Key::Char('r'),
        forall|c: Category| #[trigger] command_of(key) == KeyCommand::Filter(c) <==> key == Key::Char(filter_key(c)),
        command_of(key) is Nothing <==> !(key == Key::Esc || key == Key::Down || key == Key::Up || (key matches Key::Char(
            ch,
        ) && (ch == 'q' || ch == 'j' || ch == 'k' || ch == ' ' || ch == 'a' || ch == 'n' || ch == 'd' || ch
            == 'r' || ch == '1' || ch == '2' || ch == '3' || ch == '4'))),
{
    assert(filter_key(Category::Node) == '1');
    assert(filter_key(Category::Python) == '2');
    assert(filter_key(Category::Model) == '3');
    assert(filter_key(Category::Build) == '4');
}

/// The header's filter switch of a category is labelled with the key that
/// toggles it: `[1]node`, `[2]python`, `[3]model`, `[4]build`.
pub proof fn lemma_filter_label_shows_key(c: Category)
    ensures
        decimal(category_rank(c) + 1) == seq![filter_key(c)],
{
}

} // verus!

verus! {

/// The category a display line belongs to: a header's own, or its row's.
pub open spec fn disp_category(rows: Seq<Row>, d: Disp) -> Category {
    match d {
        Disp::Header(c) => c,
        Disp::Item(r) => rows[r as int].item.category,
    }
}

proof fn lemma_block_category(rows: Seq<Row>, f: Seq<Category>, c: Category)
    requires
        rows.len() <= usize::MAX,
    ensures
        forall|k: int| 0 <= k < block(rows, f, c).len() ==> disp_category(rows, #[trigger] block(rows, f, c)[k]) == c,
{
    lemma_block(rows, f, c);
    assert forall|k: int| 0 <= k < block(rows, f, c).len() implies disp_category(
        rows,
        #[trigger] block(rows, f, c)[k],
    ) == c by {
        let b = block(rows, f, c);
        if b[k] is Item {
        } else {
            let items = rows_of(rows, c);
            assert(b == seq![Disp::Header(c)] + items);
            lemma_rows_of(rows, c);
            if k > 0 {
                assert(b[k] == items[k - 1]);
            }
        }
    }
}

/// The display shows the categories in their fixed order, Node, Python,
/// Model, then Build: along the list, headers and rows never go back to an
/// earlier category.
pub proof fn lemma_layout_in_category_order(rows: Seq<Row>, f: Seq<Category>)
    requires
        rows.len() <= usize::MAX,
    ensures
        forall|i: int, j: int|
            0 <= i < j < layout(rows, f).len() ==> category_rank(disp_category(rows, #[trigger] layout(rows, f)[i]))
                <= category_rank(disp_category(rows, #[trigger] layout(rows, f)[j])),
{
    lemma_block_category(rows, f, Category::Node);
    lemma_block_category(rows, f, Category::Python);
    lemma_block_category(rows, f, Category::Model);
    lemma_block_category(rows, f, Category::Build);
    let b0 = block(rows, f, Category::Node);
    let b1 = block(rows, f, Category::Python);
    let b2 = block(rows, f, Category::Model);
    let b3 = block(rows, f, Category::Build);
    let l = layout(rows, f);
    let n0 = b0.len() as int;
    let n1 = n0 + b1.len();
    let n2 = n1 + b2.len();
    assert(l == b0 + b1 + b2 + b3);
    assert forall|k: int| 0 <= k < l.len() implies category_rank(disp_category(rows, #[trigger] l[k])) == (if k
        < n0 {
        0int
    } else if k < n1 {
        1int
    } else if k < n2 {
        2int
    } else {
        3int
    }) by {
        if k < n0 {
            assert(l[k] == b0[k]);
        } else if k < n1 {
            assert(l[k] == b1[k - n0]);
        } else if k < n2 {
            assert(l[k] == b2[k - n1]);
        } else {
            assert(l[k] == b3[k - n2]);
        }
    }
}

} // verus!
