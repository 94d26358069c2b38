//! The delegate of the emoji picker grid.
use vstd::prelude::*;

use crate::base_delegate::{
    all_indices, first_selection, indices_where, lemma_all_indices, lemma_indices_where, step_down,
    step_up, BaseDelegate, BaseState,
};
use crate::text::{chars_of, contains_block, contains_chars, lowercase, to_lowercase};

verus! {

/// An emoji with its name.
#[derive(Debug)]
pub struct EmojiItem {
    /// The emoji itself.
    pub emoji: String,
    /// Its name.
    pub name: String,
}

impl Clone for EmojiItem {
    fn clone(&self) -> (r: Self)
        ensures
            r == *self,
    {
        EmojiItem { emoji: self.emoji.clone(), name: self.name.clone() }
    }
}

/// An emoji matches a query when the emoji contains it, or its name does, ignoring
/// case.
pub open spec fn emoji_matches(e: EmojiItem, query: Seq<char>) -> bool {
    contains_block(e.emoji@, query) || contains_block(lowercase(e.name@), lowercase(query))
}

/// The visible emojis for a query: all for an empty query, else the matching ones in
/// order.
pub open spec fn emoji_filter(items: Seq<EmojiItem>, query: Seq<char>) -> Seq<usize> {
    if query.len() == 0 {
        all_indices(items.len())
    } else {
        indices_where(items.len(), |i: int| emoji_matches(items[i], query))
    }
}

/// The position one row down from `c` among `n` entries in `w` columns; past the last
/// row, the first row of the same column.
pub open spec fn grid_down(c: int, n: int, w: int) -> int {
    if c + w < n {
        c + w
    } else {
        c % w
    }
}

/// The position one row up from `c` among `n` entries in `w` columns; from the first
/// row, the last row that has the same column.
pub open spec fn grid_up(c: int, n: int, w: int) -> int {
    if c >= w {
        c - w
    } else {
        let last_row = (n - 1) / w;
        let target = last_row * w + c % w;
        if target < n {
            target
        } else {
            (last_row - 1) * w + c % w
        }
    }
}

/// Number of rows that `n` entries fill in `w` columns.
pub open spec fn row_count_of(n: int, w: int) -> int {
    if n == 0 {
        0
    } else {
        (n + w - 1) / w
    }
}

/// Delegate for the emoji picker grid.
pub struct EmojiGridDelegate {
    base: BaseDelegate<EmojiItem>,
    columns: usize,
}

impl EmojiGridDelegate {
    /// Abstract state: emojis, visible indices, selection and query.
    pub closed spec fn state(&self) -> BaseState<EmojiItem> {
        self.base@
    }

    /// Number of columns of the grid.
    pub closed spec fn columns(&self) -> nat {
        self.columns as nat
    }

    /// The visible indices point at emojis, each once, and a selection lies among them.
    pub open spec fn wf(&self) -> bool {
        &&& forall|k: int|
            0 <= k < self.state().filtered.len() ==> #[trigger] self.state().filtered[k]
                < self.state().items.len()
        &&& self.state().filtered.no_duplicates()
        &&& self.state().selected matches Some(s) ==> s < self.state().filtered.len()
    }

    /// A grid of `items` in `columns` columns, all shown, the first one selected.
    pub fn new(items: Vec<EmojiItem>, columns: usize) -> (d: Self)
        ensures
            d.wf(),
            d.state().items == items@,
            d.state().filtered == all_indices(items@.len()),
            d.state().selected == first_selection(items@.len()),
            d.state().query == Seq::<char>::empty(),
            d.columns() == columns,
    {
        let d = EmojiGridDelegate { base: BaseDelegate::new(items), columns };
        proof {
            d.base.lemma_lengths();
            lemma_all_indices(d.state().items.len());
        }
        d
    }

    /// The selected position.
    pub fn selected_index(&self) -> (s: Option<usize>)
        ensures
            s == self.state().selected,
    {
        self.base.selected_index()
    }

    /// The row of the selected emoji.
    pub fn selected_row(&self) -> (r: Option<usize>)
        requires
            self.columns() > 0,
        ensures
            r == match self.state().selected {
                Some(i) => Some((i as nat / self.columns()) as usize),
                None => None,
            },
    {
        match self.selected_index() {
            Some(idx) => Some(idx / self.columns),
            None => None,
        }
    }

    /// Number of visible emojis.
    pub fn filtered_count(&self) -> (n: usize)
        ensures
            n == self.state().filtered.len(),
    {
        self.base.filtered_count()
    }

    /// The current query.
    pub fn query(&self) -> (q: &str)
        ensures
            q@ == self.state().query,
    {
        self.base.query()
    }

    /// Clear the query and show all emojis again.
    pub fn clear_query(&mut self)
        requires
            old(self).wf(),
        ensures
            final(self).wf(),
            final(self).columns() == old(self).columns(),
            final(self).state().items == old(self).state().items,
            final(self).state().query == Seq::<char>::empty(),
            final(self).state().filtered == all_indices(old(self).state().items.len()),
            final(self).state().selected == first_selection(old(self).state().items.len()),
    {
        self.base.clear_query();
        proof {
            self.base.lemma_lengths();
            lemma_all_indices(self.state().items.len());
        }
    }

    /// Set the query and show the emojis that contain it, or whose name contains it
    /// ignoring case, the first one selected.
    pub fn set_query(&mut self, query: String)
        requires
            old(self).wf(),
        ensures
            final(self).wf(),
            final(self).columns() == old(self).columns(),
            final(self).state().items == old(self).state().items,
            final(self).state().query == query@,
            final(self).state().filtered == emoji_filter(old(self).state().items, query@),
            final(self).state().selected == first_selection(
                emoji_filter(old(self).state().items, query@).len(),
            ),
    {
        self.base.set_query(query);
        self.filter_items();
    }

    fn filter_items(&mut self)
        requires
            old(self).wf(),
        ensures
            final(self).wf(),
            final(self).columns() == old(self).columns(),
            final(self).state().items == old(self).state().items,
            final(self).state().query == old(self).state().query,
            final(self).state().filtered == emoji_filter(
                old(self).state().items,
                old(self).state().query,
            ),
            final(self).state().selected == first_selection(
                emoji_filter(old(self).state().items, old(self).state().query).len(),
            ),
    {
        if self.base.query().is_empty() {
            self.base.reset_filter();
            proof {
                self.base.lemma_lengths();
                lemma_all_indices(self.state().items.len());
            }
        } else {
            let filtered_indices = {
                let items = self.base.items();
                let q = self.base.query();
                let query_chars = chars_of(q);
                let query_lower = chars_of(to_lowercase(q).as_str());
                let ghost pred = |i: int| emoji_matches(items@[i], q@);
                let mut v: Vec<usize> = Vec::new();
                let mut i: usize = 0;
                while i < items.len()
                    invariant
                        i <= items.len(),
                        query_chars@ == q@,
                        query_lower@ == lowercase(q@),
                        pred == (|i: int| emoji_matches(items@[i], q@)),
                        v@ == indices_where(i as nat, pred),
                    decreases items.len() - i,
                {
                    let item = &items[i];
                    let emoji = chars_of(item.emoji.as_str());
                    let name_lower = chars_of(to_lowercase(item.name.as_str()).as_str());
                    if contains_chars(&emoji, &query_chars) || contains_chars(
                        &name_lower,
                        &query_lower,
                    ) {
                        v.push(i);
                    }
                    i = i + 1;
                }
                proof {
                    lemma_indices_where(items.len() as nat, pred);
                    let w = v@;
                    assert forall|a: int, b: int|
                        0 <= a < w.len() && 0 <= b < w.len() && a != b implies w[a] != w[b] by {
                        if a < b {
                            assert(w[a] < w[b]);
                        } else {
                            assert(w[b] < w[a]);
                        }
                    }
                }
                v
            };
            self.base.apply_filtered_indices(filtered_indices);
        }
    }

    /// The emoji shown at visible position `index`, if any.
    pub fn get_item_at(&self, index: usize) -> (r: Option<&EmojiItem>)
        ensures
            match r {
                Some(t) => index < self.state().filtered.len() && self.state().filtered[index as int]
                    < self.state().items.len() && *t == self.state().items[self.state().filtered[index as int] as int],
                None => !(index < self.state().filtered.len() && self.state().filtered[index as int]
                    < self.state().items.len()),
            },
    {
        self.base.get_filtered_item(index)
    }

    /// The emoji that confirming hands on: the selected one, if any.
    pub fn do_confirm(&self) -> (r: Option<&EmojiItem>)
        ensures
            match r {
                Some(t) => self.state().selected matches Some(s) && s < self.state().filtered.len()
                    && self.state().filtered[s as int] < self.state().items.len() && *t
                    == self.state().items[self.state().filtered[s as int] as int],
                None => !(self.state().selected matches Some(s) && s < self.state().filtered.len()
                    && self.state().filtered[s as int] < self.state().items.len()),
            },
    {
        self.base.selected_item()
    }

    /// Move the selection to the next emoji, wrapping to the first.
    pub fn select_right(&mut self)
        requires
            old(self).wf(),
        ensures
            final(self).wf(),
            final(self).columns() == old(self).columns(),
            final(self).state() == (BaseState {
                selected: if old(self).state().filtered.len() == 0 {
                    old(self).state().selected
                } else {
                    step_down(old(self).state().selected, old(self).state().filtered.len())
                },
                ..old(self).state()
            }),
    {
        self.base.select_down();
    }

    /// Move the selection to the previous emoji, wrapping to the last.
    pub fn select_left(&mut self)
        requires
            old(self).wf(),
        ensures
            final(self).wf(),
            final(self).columns() == old(self).columns(),
            final(self).state() == (BaseState {
                selected: if old(self).state().filtered.len() == 0 {
                    old(self).state().selected
                } else {
                    step_up(old(self).state().selected, old(self).state().filtered.len())
                },
                ..old(self).state()
            }),
    {
        self.base.select_up();
    }

    /// Move the selection one row down, wrapping to the first row of the same column.
    pub fn select_down(&mut self)
        requires
            old(self).wf(),
            old(self).columns() > 0,
            old(self).state().filtered.len() + old(self).columns() <= usize::MAX,
        ensures
            final(self).wf(),
            final(self).columns() == old(self).columns(),
            final(self).state() == (BaseState {
                selected: match old(self).state().selected {
                    Some(c) => Some(
                        grid_down(
                            c as int,
                            old(self).state().filtered.len() as int,
                            old(self).columns() as int,
                        ) as usize,
                    ),
                    None => None,
                },
                ..old(self).state()
            }),
    {
        let count = self.filtered_count();
        if count == 0 {
            return;
        }
        if let Some(current) = self.selected_index() {
            let next = current + self.columns;
            if next < count {
                self.base.set_selected(next);
            } else {
                proof {
                    lemma_mod_below(current as int, self.columns as int);
                }
                self.base.set_selected(current % self.columns);
            }
        }
    }

    /// Move the selection one row up, wrapping to the last row that has the same
    /// column.
    pub fn select_up(&mut self)
        requires
            old(self).wf(),
            old(self).columns() > 0,
            old(self).state().filtered.len() + old(self).columns() <= usize::MAX,
        ensures
            final(self).wf(),
            final(self).columns() == old(self).columns(),
            final(self).state() == (BaseState {
                selected: match old(self).state().selected {
                    Some(c) => Some(
                        grid_up(
                            c as int,
                            old(self).state().filtered.len() as int,
                            old(self).columns() as int,
                        ) as usize,
                    ),
                    None => None,
                },
                ..old(self).state()
            }),
    {
        let count = self.filtered_count();
        if count == 0 {
            return;
        }
        if let Some(current) = self.selected_index() {
            let w = self.columns;
            if current >= w {
                self.base.set_selected(current - w);
            } else {
                let col = current % w;
                let last_row = (count - 1) / w;
                proof {
                    lemma_grid_up_bounds(current as int, count as int, w as int);
                }
                let target = last_row * w + col;
                if target < count {
                    self.base.set_selected(target);
                } else {
                    let prev_row = last_row - 1;
                    self.base.set_selected(prev_row * w + col);
                }
            }
        }
    }

    /// Number of rows of the grid.
    pub fn row_count(&self) -> (n: usize)
        requires
            self.columns() > 0,
        ensures
            n == row_count_of(self.state().filtered.len() as int, self.columns() as int),
    {
        let count = self.filtered_count();
        if count == 0 {
            0
        } else {
            let d = count / self.columns;
            let r = count % self.columns;
            proof {
                lemma_div_ceil(count as int, self.columns as int);
            }
            if r > 0 {
                d + 1
            } else {
                d
            }
        }
    }

    /// The emojis of grid row `row`, in order.
    pub fn emojis_for_row(&self, row: usize) -> (v: Vec<EmojiItem>)
        requires
            self.wf(),
            (row + 1) * self.columns() <= usize::MAX,
        ensures
            ({
                let n = self.state().filtered.len() as int;
                let start = row * self.columns();
                let end = if start + self.columns() < n {
                    start + self.columns()
                } else {
                    n
                };
                &&& v@.len() == if end > start {
                    end - start
                } else {
                    0
                }
                &&& forall|k: int|
                    0 <= k < v@.len() ==> #[trigger] v@[k] == self.state().items[self.state().filtered[start
                        + k] as int]
            }),
    {
        proof {
            assert(row * self.columns() <= (row + 1) * self.columns()) by (nonlinear_arith);
            assert((row + 1) * self.columns() == row * self.columns() + self.columns()) by (nonlinear_arith);
        }
        let start = row * self.columns;
        let count = self.filtered_count();
        let end = if start + self.columns < count {
            start + self.columns
        } else {
            count
        };
        let mut v: Vec<EmojiItem> = Vec::new();
        if end <= start {
            return v;
        }
        let mut i = start;
        while i < end
            invariant
                self.wf(),
                start <= i <= end <= count,
                count == self.state().filtered.len(),
                v@.len() == i - start,
                forall|k: int|
                    0 <= k < v@.len() ==> #[trigger] v@[k] == self.state().items[self.state().filtered[start
                        + k] as int],
            decreases end - i,
        {
            if let Some(item) = self.base.get_filtered_item(i) {
                v.push(item.clone());
            }
            i = i + 1;
        }
        v
    }

    /// Select the first emoji of a grid row, or the first emoji when no row is given.
    pub fn set_selected_row(&mut self, row: Option<usize>)
        requires
            old(self).wf(),
            row matches Some(r) ==> r * old(self).columns() <= usize::MAX,
        ensures
            final(self).wf(),
            final(self).columns() == old(self).columns(),
            ({
                let target: int = match row {
                    Some(r) => r * old(self).columns(),
                    None => 0,
                };
                final(self).state() == (BaseState {
                    selected: if target < old(self).state().filtered.len() {
                        Some(target as usize)
                    } else {
                        old(self).state().selected
                    },
                    ..old(self).state()
                })
            }),
    {
        let target = match row {
            Some(r) => r * self.columns,
            None => 0,
        };
        self.base.set_selected(target);
    }
}

proof fn lemma_mod_below(c: int, w: int)
    requires
        0 <= c,
        0 < w,
    ensures
        0 <= c % w <= c,
        c % w < w,
{
    assert(0 <= c % w < w) by (nonlinear_arith)
        requires
            0 < w,
    ;
    assert(c % w <= c) by (nonlinear_arith)
        requires
            0 <= c,
            0 < w,
    ;
}

proof fn lemma_grid_up_bounds(c: int, n: int, w: int)
    requires
        0 <= c < w,
        c < n,
        0 < w,
    ensures
        0 <= (n - 1) / w,
        ((n - 1) / w) * w <= n - 1,
        (n - 1) / w * w + c % w >= n ==> (n - 1) / w >= 1,
        (n - 1) / w * w + c % w >= n ==> ((n - 1) / w - 1) * w + c % w < n,
        (n - 1) / w * w + c % w < n + w,
        c % w == c,
{
    lemma_mod_below(c, w);
    assert(c % w == c) by (nonlinear_arith)
        requires
            0 <= c < w,
    ;
    assert(0 <= (n - 1) / w && ((n - 1) / w) * w <= n - 1) by (nonlinear_arith)
        requires
            0 <= n - 1,
            0 < w,
    ;
    assert(((n - 1) / w - 1) * w == (n - 1) / w * w - w) by (nonlinear_arith);
}

proof fn lemma_div_ceil(n: int, w: int)
    requires
        0 < n,
        0 < w,
    ensures
        (n + w - 1) / w == n / w + (if n % w > 0 {
            1int
        } else {
            0
        }),
        n % w > 0 ==> n / w < n,
{
    if n % w > 0 {
        assert(w >= 2) by {
            if w == 1 {
                assert(n % 1 == 0) by (nonlinear_arith);
            }
        }
        assert(n / w < n) by (nonlinear_arith)
            requires
                0 < n,
                2 <= w,
        ;
    }
    assert((n + w - 1) / w == n / w + (if n % w > 0 {
        1int
    } else {
        0
    })) by (nonlinear_arith)
        requires
            0 < n,
            0 < w,
    ;
}

/// Row and column of a grid position.
proof fn lemma_row_col(c: int, w: int)
    requires
        0 <= c,
        0 < w,
    ensures
        c == (c / w) * w + c % w,
        0 <= c % w < w,
        0 <= c / w,
{
    vstd::arithmetic::div_mod::lemma_fundamental_div_mod(c, w);
    assert(w * (c / w) == (c / w) * w) by (nonlinear_arith);
    lemma_mod_below(c, w);
    assert(0 <= c / w) by (nonlinear_arith)
        requires
            0 <= c,
            0 < w,
    ;
}

/// The position in row `q` and column `k`.
proof fn lemma_position(q: int, k: int, w: int)
    requires
        0 <= k < w,
        0 < w,
    ensures
        (q * w + k) / w == q,
        (q * w + k) % w == k,
{
    vstd::arithmetic::div_mod::lemma_fundamental_div_mod_converse(q * w + k, w, q, k);
}

/// The last row of `n > 0` entries is the row of the last entry.
proof fn lemma_last_row(c: int, n: int, w: int)
    requires
        0 <= c < n,
        n <= c + w,
        0 < w,
    ensures
        (n - 1) / w == c / w || (n - 1) / w == c / w + 1,
{
    lemma_row_col(c, w);
    lemma_row_col(n - 1, w);
    let q = c / w;
    let l = (n - 1) / w;
    assert(l >= q) by (nonlinear_arith)
        requires
            l * w + (n - 1) % w == n - 1,
            q * w + c % w == c,
            c <= n - 1,
            (n - 1) % w < w,
            0 <= c % w,
            0 < w,
    ;
    assert(l <= q + 1) by (nonlinear_arith)
        requires
            l * w + (n - 1) % w == n - 1,
            q * w + c % w == c,
            n - 1 < c + w,
            0 <= (n - 1) % w,
            c % w < w,
            0 < w,
    ;
}

/// Moving one row down and then one row up returns to the emoji one started from.
pub proof fn law_grid_down_then_up(c: int, n: int, w: int)
    requires
        0 <= c < n,
        0 < w,
    ensures
        grid_up(grid_down(c, n, w), n, w) == c,
{
    if c + w >= n {
        lemma_row_col(c, w);
        lemma_last_row(c, n, w);
        let q = c / w;
        let k = c % w;
        lemma_position(0, k, w);
        assert(k % w == k);
        let l = (n - 1) / w;
        if l == q {
            assert(l * w + k == c);
        } else {
            assert(l * w + k == c + w) by (nonlinear_arith)
                requires
                    l == q + 1,
                    c == q * w + k,
            ;
            assert((l - 1) * w + k == c) by (nonlinear_arith)
                requires
                    l == q + 1,
                    c == q * w + k,
            ;
        }
    }
}

/// Moving one row up and then one row down returns to the emoji one started from.
pub proof fn law_grid_up_then_down(c: int, n: int, w: int)
    requires
        0 <= c < n,
        0 < w,
    ensures
        grid_down(grid_up(c, n, w), n, w) == c,
{
    if c < w {
        lemma_grid_up_bounds(c, n, w);
        lemma_row_col(n - 1, w);
        let l = (n - 1) / w;
        let t = l * w + c;
        assert((l + 1) * w >= n) by (nonlinear_arith)
            requires
                l * w + (n - 1) % w == n - 1,
                (n - 1) % w < w,
        ;
        assert((l + 1) * w == l * w + w) by (nonlinear_arith);
        if t < n {
            lemma_position(l, c, w);
        } else {
            assert((l - 1) * w + w == l * w) by (nonlinear_arith);
            lemma_position(l - 1, c, w);
        }
    }
}

/// Moving one row up or down keeps the column.
pub proof fn law_grid_keeps_column(c: int, n: int, w: int)
    requires
        0 <= c < n,
        0 < w,
    ensures
        grid_down(c, n, w) % w == c % w,
        grid_up(c, n, w) % w == c % w,
{
    lemma_row_col(c, w);
    let q = c / w;
    let k = c % w;
    lemma_position(q + 1, k, w);
    assert((q + 1) * w + k == c + w) by (nonlinear_arith)
        requires
            c == q * w + k,
    ;
    lemma_position(0, k, w);
    if c >= w {
        assert(q >= 1) by (nonlinear_arith)
            requires
                c == q * w + k,
                k < w,
                c >= w,
                q >= 0,
                w > 0,
        ;
        lemma_position(q - 1, k, w);
        assert((q - 1) * w + k == c - w) by (nonlinear_arith)
            requires
                c == q * w + k,
        ;
    } else {
        lemma_grid_up_bounds(c, n, w);
        let l = (n - 1) / w;
        lemma_position(l, k, w);
        if l >= 1 {
            lemma_position(l - 1, k, w);
        }
    }
}

/// After a query, an emoji is visible exactly when the query is empty, or the emoji
/// contains the query, or its lower-cased name contains the lower-cased query anywhere.
pub proof fn law_emoji_visible(items: Seq<EmojiItem>, query: Seq<char>, i: int)
    requires
        items.len() <= usize::MAX,
        0 <= i < items.len(),
    ensures
        emoji_filter(items, query).contains(i as usize) <==> (query.len() == 0 || contains_block(items[i].emoji@, query) || contains_block(
            lowercase(items[i].name@),
            lowercase(query),
        )),
{
    if query.len() == 0 {
        lemma_all_indices(items.len());
        assert(emoji_filter(items, query)[i] == i as usize);
    } else {
        let p = |k: int| emoji_matches(items[k], query);
        lemma_indices_where(items.len(), p);
        assert(p(i) == emoji_matches(items[i], query));
    }
}

} // verus!
