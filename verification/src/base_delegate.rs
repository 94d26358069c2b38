//! Selection and filtering state shared by the list delegates.
use vstd::prelude::*;


verus! {

/// Abstract state of a base delegate.
pub struct BaseState<T> {
    /// All items.
    pub items: Seq<T>,
    /// Indices of the visible items, in display order.
    pub filtered: Seq<usize>,
    /// The selected position among the visible items.
    pub selected: Option<usize>,
    /// The current query.
    pub query: Seq<char>,
}

/// `0, 1, ..., n - 1`.
pub open spec fn all_indices(n: nat) -> Seq<usize> {
    Seq::new(n, |i: int| i as usize)
}

/// Selection for a list of `n` visible items after a reset: the first, if any.
pub open spec fn first_selection(n: nat) -> Option<usize> {
    if n > 0 {
        Some(0usize)
    } else {
        None
    }
}

/// Position after moving down one step from `sel` among `n > 0` entries, wrapping.
pub open spec fn step_down(sel: Option<usize>, n: nat) -> Option<usize> {
    let cur = match sel {
        Some(c) => c as int,
        None => 0,
    };
    if cur + 1 >= n {
        Some(0usize)
    } else {
        Some((cur + 1) as usize)
    }
}

/// Position after moving up one step from `sel` among `n > 0` entries, wrapping.
pub open spec fn step_up(sel: Option<usize>, n: nat) -> Option<usize> {
    let cur = match sel {
        Some(c) => c as int,
        None => 0,
    };
    if cur == 0 {
        Some((n - 1) as usize)
    } else {
        Some((cur - 1) as usize)
    }
}

/// Common state and behavior for all list delegates: the items, the visible
/// (filtered) indices, the selection and the query.
pub struct BaseDelegate<T> {
    items: Vec<T>,
    filtered_indices: Vec<usize>,
    selected_index: Option<usize>,
    query: String,
}

impl<T> View for BaseDelegate<T> {
    type V = BaseState<T>;

    closed spec fn view(&self) -> BaseState<T> {
        BaseState {
            items: self.items@,
            filtered: self.filtered_indices@,
            selected: self.selected_index,
            query: self.query@,
        }
    }
}

pub(crate) fn index_range(n: usize) -> (v: Vec<usize>)
    ensures
        v@ == all_indices(n as nat),
{
    let mut v: Vec<usize> = Vec::new();
    let mut i: usize = 0;
    while i < n
        invariant
            i <= n,
            v@ == all_indices(i as nat),
        decreases n - i,
    {
        v.push(i);
        i = i + 1;
    }
    v
}

impl<T> BaseDelegate<T> {
    /// A delegate showing all `items`, the first one selected.
    pub fn new(items: Vec<T>) -> (d: Self)
        ensures
            d@.items == items@,
            d@.filtered == all_indices(items@.len()),
            d@.selected == first_selection(items@.len()),
            d@.query == Seq::<char>::empty(),
    {
        let len = items.len();
        let filtered_indices = index_range(len);
        BaseDelegate {
            items,
            filtered_indices,
            selected_index: if len > 0 {
                Some(0)
            } else {
                None
            },
            query: String::new(),
        }
    }

    /// The selected position.
    pub fn selected_index(&self) -> (s: Option<usize>)
        ensures
            s == self@.selected,
    {
        self.selected_index
    }

    /// Select position `index` when it is among the visible items; otherwise nothing changes.
    pub fn set_selected(&mut self, index: usize)
        ensures
            final(self)@.items == old(self)@.items,
            final(self)@.filtered == old(self)@.filtered,
            final(self)@.query == old(self)@.query,
            final(self)@.selected == (if index < old(self)@.filtered.len() {
                Some(index)
            } else {
                old(self)@.selected
            }),
    {
        if index < self.filtered_count() {
            self.selected_index = Some(index);
        }
    }

    /// Select position `index` without checking it against the visible items.
    pub fn set_selected_unchecked(&mut self, index: usize)
        ensures
            final(self)@ == (BaseState { selected: Some(index), ..old(self)@ }),
    {
        self.selected_index = Some(index);
    }

    /// Number of visible items.
    pub fn filtered_count(&self) -> (n: usize)
        ensures
            n == self@.filtered.len(),
    {
        self.filtered_indices.len()
    }

    /// The current query.
    pub fn query(&self) -> (q: &str)
        ensures
            q@ == self@.query,
    {
        self.query.as_str()
    }

    /// Set the query (the caller then filters).
    pub fn set_query(&mut self, query: String)
        ensures
            final(self)@ == (BaseState { query: query@, ..old(self)@ }),
    {
        self.query = query;
    }

    /// Clear the query and show all items again.
    pub fn clear_query(&mut self)
        ensures
            final(self)@.items == old(self)@.items,
            final(self)@.query == Seq::<char>::empty(),
            final(self)@.filtered == all_indices(old(self)@.items.len()),
            final(self)@.selected == first_selection(old(self)@.items.len()),
    {
        self.query = String::new();
        self.reset_filter();
    }

    /// Show all items, the first one selected.
    pub fn reset_filter(&mut self)
        ensures
            final(self)@.items == old(self)@.items,
            final(self)@.query == old(self)@.query,
            final(self)@.filtered == all_indices(old(self)@.items.len()),
            final(self)@.selected == first_selection(old(self)@.items.len()),
    {
        self.filtered_indices = index_range(self.items.len());
        if self.filtered_indices.len() > 0 {
            self.selected_index = Some(0);
        } else {
            self.selected_index = None;
        }
    }

    /// Show the items at `indices`, in that order, the first one selected.
    pub fn apply_filtered_indices(&mut self, indices: Vec<usize>)
        ensures
            final(self)@.items == old(self)@.items,
            final(self)@.query == old(self)@.query,
            final(self)@.filtered == indices@,
            final(self)@.selected == first_selection(indices@.len()),
    {
        self.filtered_indices = indices;
        if self.filtered_indices.len() > 0 {
            self.selected_index = Some(0);
        } else {
            self.selected_index = None;
        }
    }

    /// The item shown at visible position `filtered_index`, if any.
    pub fn get_filtered_item(&self, filtered_index: usize) -> (r: Option<&T>)
        ensures
            match r {
                Some(t) => filtered_index < self@.filtered.len() && self@.filtered[filtered_index as int]
                    < self@.items.len() && *t == self@.items[self@.filtered[filtered_index as int] as int],
                None => !(filtered_index < self@.filtered.len() && self@.filtered[filtered_index as int]
                    < self@.items.len()),
            },
    {
        if filtered_index < self.filtered_indices.len() {
            let item_idx = self.filtered_indices[filtered_index];
            if item_idx < self.items.len() {
                return Some(&self.items[item_idx]);
            }
        }
        None
    }

    /// The selected item, if any.
    pub fn selected_item(&self) -> (r: Option<&T>)
        ensures
            match r {
                Some(t) => self@.selected matches Some(s) && s < self@.filtered.len()
                    && self@.filtered[s as int] < self@.items.len() && *t
                    == self@.items[self@.filtered[s as int] as int],
                None => !(self@.selected matches Some(s) && s < self@.filtered.len()
                    && self@.filtered[s as int] < self@.items.len()),
            },
    {
        match self.selected_index {
            Some(idx) => self.get_filtered_item(idx),
            None => None,
        }
    }

    /// Move the selection down one item, wrapping to the first.
    pub fn select_down(&mut self)
        ensures
            final(self)@.items == old(self)@.items,
            final(self)@.filtered == old(self)@.filtered,
            final(self)@.query == old(self)@.query,
            final(self)@.selected == (if old(self)@.filtered.len() == 0 {
                old(self)@.selected
            } else {
                step_down(old(self)@.selected, old(self)@.filtered.len())
            }),
    {
        let count = self.filtered_count();
        if count == 0 {
            return;
        }
        let current = match self.selected_index {
            Some(c) => c,
            None => 0,
        };
        let next = if current >= count - 1 {
            0
        } else {
            current + 1
        };
        self.selected_index = Some(next);
    }

    /// Move the selection up one item, wrapping to the last.
    pub fn select_up(&mut self)
        ensures
            final(self)@.items == old(self)@.items,
            final(self)@.filtered == old(self)@.filtered,
            final(self)@.query == old(self)@.query,
            final(self)@.selected == (if old(self)@.filtered.len() == 0 {
                old(self)@.selected
            } else {
                step_up(old(self)@.selected, old(self)@.filtered.len())
            }),
    {
        let count = self.filtered_count();
        if count == 0 {
            return;
        }
        let current = match self.selected_index {
            Some(c) => c,
            None => 0,
        };
        let prev = if current == 0 {
            count - 1
        } else {
            current - 1
        };
        self.selected_index = Some(prev);
    }

    /// All items.
    pub fn items(&self) -> (s: &[T])
        ensures
            s@ == self@.items,
    {
        self.items.as_slice()
    }

    /// The item and visible index counts fit in a `usize`.
    pub proof fn lemma_lengths(&self)
        ensures
            self@.items.len() <= usize::MAX,
            self@.filtered.len() <= usize::MAX,
    {
        assert(self.items@.len() == self.items.len());
        assert(self.filtered_indices@.len() == self.filtered_indices.len());
    }

    /// The visible indices.
    pub fn filtered_indices(&self) -> (s: &[usize])
        ensures
            s@ == self@.filtered,
    {
        self.filtered_indices.as_slice()
    }
}

/// `all_indices(n)` lists `0, ..., n - 1`, each once.
pub proof fn lemma_all_indices(n: nat)
    requires
        n <= usize::MAX,
    ensures
        all_indices(n).len() == n,
        forall|k: int| 0 <= k < n ==> #[trigger] all_indices(n)[k] == k,
        all_indices(n).no_duplicates(),
{
    let s = all_indices(n);
    assert forall|a: int, b: int| 0 <= a < s.len() && 0 <= b < s.len() && a != b implies s[a]
        != s[b] by {
        assert(s[a] == a);
        assert(s[b] == b);
    }
}

/// The positions below `n` that satisfy `p`, in increasing order.
pub open spec fn indices_where(n: nat, p: spec_fn(int) -> bool) -> Seq<usize>
    decreases n,
{
    if n == 0 {
        Seq::empty()
    } else {
        let prev = indices_where((n - 1) as nat, p);
        if p(n - 1) {
            prev.push((n - 1) as usize)
        } else {
            prev
        }
    }
}

/// The positions that `indices_where` lists lie below `n`, increase strictly, and are
/// exactly those that satisfy `p`.
pub proof fn lemma_indices_where(n: nat, p: spec_fn(int) -> bool)
    requires
        n <= usize::MAX,
    ensures
        forall|k: int| 0 <= k < indices_where(n, p).len() ==> #[trigger] indices_where(n, p)[k] < n,
        forall|a: int, b: int|
            0 <= a < b < indices_where(n, p).len() ==> #[trigger] indices_where(n, p)[a]
                < #[trigger] indices_where(n, p)[b],
        forall|i: int| 0 <= i < n ==> (#[trigger] p(i) <==> indices_where(n, p).contains(i as usize)),
    decreases n,
{
    if n > 0 {
        lemma_indices_where((n - 1) as nat, p);
        let prev = indices_where((n - 1) as nat, p);
        let cur = indices_where(n, p);
        assert forall|i: int| 0 <= i < n implies (#[trigger] p(i) <==> cur.contains(i as usize)) by {
            if i < n - 1 {
                if cur.contains(i as usize) {
                    let k = choose|k: int| 0 <= k < cur.len() && cur[k] == i as usize;
                    if k < prev.len() {
                        assert(prev[k] == i as usize);
                    }
                }
                if prev.contains(i as usize) {
                    let k = choose|k: int| 0 <= k < prev.len() && prev[k] == i as usize;
                    assert(cur[k] == i as usize);
                }
            } else if p(i) {
                assert(cur[cur.len() - 1] == i as usize);
            } else {
                if cur.contains(i as usize) {
                    let k = choose|k: int| 0 <= k < cur.len() && cur[k] == i as usize;
                    assert(prev[k] < n - 1);
                }
            }
        }
    }
}

/// Moving down then up returns to the selection one started from, when that selection
/// is a visible position.
pub proof fn law_select_down_up(sel: usize, n: nat)
    requires
        sel < n,
        n <= usize::MAX + 1,
    ensures
        step_up(step_down(Some(sel), n), n) == Some(sel),
{
}

/// Moving up then down returns to the selection one started from, when that selection
/// is a visible position.
pub proof fn law_select_up_down(sel: usize, n: nat)
    requires
        sel < n,
        n <= usize::MAX + 1,
    ensures
        step_down(step_up(Some(sel), n), n) == Some(sel),
{
}

/// A step down or up from any selection lands on a visible position.
pub proof fn law_steps_stay_visible(sel: Option<usize>, n: nat)
    requires
        0 < n <= usize::MAX + 1,
        sel matches Some(s) ==> s < n,
    ensures
        step_down(sel, n) matches Some(d) && d < n,
        step_up(sel, n) matches Some(u) && u < n,
{
}

/// A sequence of distinct values below `n` has at most `n` entries.
pub proof fn lemma_distinct_below(s: Seq<usize>, n: int)
    requires
        0 <= n,
        s.no_duplicates(),
        forall|i: int| 0 <= i < s.len() ==> s[i] < n,
    ensures
        s.len() <= n,
{
    let t = s.map_values(|x: usize| x as int);
    assert(t.no_duplicates()) by {
        assert forall|i: int, j: int| 0 <= i < t.len() && 0 <= j < t.len() && i != j implies t[i]
            != t[j] by {
            assert(s[i] != s[j]);
        }
    }
    t.unique_seq_to_set();
    assert(t.to_set().subset_of(vstd::set_lib::set_int_range(0, n))) by {
        assert forall|x: int| t.to_set().contains(x) implies vstd::set_lib::set_int_range(
            0,
            n,
        ).contains(x) by {
            let i = choose|i: int| 0 <= i < t.len() && t[i] == x;
            assert(s[i] < n);
        }
    }
    vstd::set_lib::lemma_int_range(0, n);
    vstd::set_lib::lemma_len_subset(t.to_set(), vstd::set_lib::set_int_range(0, n));
}

} // verus!
