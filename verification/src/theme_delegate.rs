//! The delegate of the theme picker list.
use vstd::prelude::*;

use crate::base_delegate::{
    all_indices, first_selection, indices_where, lemma_all_indices, lemma_indices_where, step_down,
    step_up, BaseDelegate, BaseState,
};
use crate::items::ThemeItem;
use crate::text::{chars_eq, chars_of, contains_block, contains_chars, lowercase, to_lowercase};

verus! {

/// A theme matches a lower-cased query when its name or its description, lower-cased,
/// contains it.
pub open spec fn theme_matches(t: ThemeItem, query: Seq<char>) -> bool {
    contains_block(lowercase(t.name@), lowercase(query)) || contains_block(
        lowercase(t.description@),
        lowercase(query),
    )
}

/// The visible themes for a query: all for an empty query, else the matching ones in
/// order.
pub open spec fn theme_filter(items: Seq<ThemeItem>, query: Seq<char>) -> Seq<usize> {
    if query.len() == 0 {
        all_indices(items.len())
    } else {
        indices_where(items.len(), |i: int| theme_matches(items[i], query))
    }
}

/// Delegate for the theme picker list.
pub struct ThemeListDelegate {
    base: BaseDelegate<ThemeItem>,
}

impl ThemeListDelegate {
    /// Abstract state: themes, visible indices, selection and query.
    pub closed spec fn state(&self) -> BaseState<ThemeItem> {
        self.base@
    }

    /// A delegate showing all `items`, the first one selected.
    pub fn new(items: Vec<ThemeItem>) -> (d: Self)
        ensures
            d.state().items == items@,
            d.state().filtered == all_indices(items@.len()),
            d.state().selected == first_selection(items@.len()),
            d.state().query == Seq::<char>::empty(),
    {
        ThemeListDelegate { base: BaseDelegate::new(items) }
    }

    /// The selected position.
    pub fn selected_index(&self) -> (s: Option<usize>)
        ensures
            s == self.state().selected,
    {
        self.base.selected_index()
    }

    /// Select position `index` when it is among the visible themes.
    pub fn set_selected(&mut self, index: usize)
        ensures
            final(self).state() == (BaseState {
                selected: if index < old(self).state().filtered.len() {
                    Some(index)
                } else {
                    old(self).state().selected
                },
                ..old(self).state()
            }),
    {
        self.base.set_selected(index);
    }

    /// Number of visible themes.
    pub fn filtered_count(&self) -> (n: usize)
        ensures
            n == self.state().filtered.len(),
    {
        self.base.filtered_count()
    }

    /// The current query.
    pub fn query(&self) -> (q: &str)
        ensures
            q@ == self.state().query,
    {
        self.base.query()
    }

    /// Clear the query and show all themes again.
    pub fn clear_query(&mut self)
        ensures
            final(self).state().items == old(self).state().items,
            final(self).state().query == Seq::<char>::empty(),
            final(self).state().filtered == all_indices(old(self).state().items.len()),
            final(self).state().selected == first_selection(old(self).state().items.len()),
    {
        self.base.clear_query();
    }

    /// Set the query and show the themes whose name or description contains it,
    /// ignoring case, the first one selected.
    pub fn set_query(&mut self, query: String)
        ensures
            final(self).state().items == old(self).state().items,
            final(self).state().query == query@,
            final(self).state().filtered == theme_filter(old(self).state().items, query@),
            final(self).state().selected == first_selection(
                theme_filter(old(self).state().items, query@).len(),
            ),
    {
        self.base.set_query(query);
        self.filter_items();
    }

    fn filter_items(&mut self)
        ensures
            final(self).state().items == old(self).state().items,
            final(self).state().query == old(self).state().query,
            final(self).state().filtered == theme_filter(
                old(self).state().items,
                old(self).state().query,
            ),
            final(self).state().selected == first_selection(
                theme_filter(old(self).state().items, old(self).state().query).len(),
            ),
    {
        if self.base.query().is_empty() {
            self.base.reset_filter();
        } else {
            let filtered_indices = {
                let items = self.base.items();
                let q = self.base.query();
                let query_lower = chars_of(to_lowercase(q).as_str());
                let ghost pred = |i: int| theme_matches(items@[i], q@);
                let mut v: Vec<usize> = Vec::new();
                let mut i: usize = 0;
                while i < items.len()
                    invariant
                        i <= items.len(),
                        query_lower@ == lowercase(q@),
                        pred == (|i: int| theme_matches(items@[i], q@)),
                        v@ == indices_where(i as nat, pred),
                    decreases items.len() - i,
                {
                    let item = &items[i];
                    let name_lower = chars_of(to_lowercase(item.name.as_str()).as_str());
                    let desc_lower = chars_of(to_lowercase(item.description.as_str()).as_str());
                    if contains_chars(&name_lower, &query_lower) || contains_chars(
                        &desc_lower,
                        &query_lower,
                    ) {
                        v.push(i);
                    }
                    i = i + 1;
                }
                v
            };
            self.base.apply_filtered_indices(filtered_indices);
        }
    }

    /// The theme shown at visible position `index`, if any.
    pub fn get_item_at(&self, index: usize) -> (r: Option<&ThemeItem>)
        ensures
            match r {
                Some(t) => index < self.state().filtered.len() && self.state().filtered[index as int]
                    < self.state().items.len() && *t == self.state().items[self.state().filtered[index as int] as int],
                None => !(index < self.state().filtered.len() && self.state().filtered[index as int]
                    < self.state().items.len()),
            },
    {
        self.base.get_filtered_item(index)
    }

    /// The selected theme, if any.
    pub fn selected_item(&self) -> (r: Option<&ThemeItem>)
        ensures
            match r {
                Some(t) => self.state().selected matches Some(s) && s < self.state().filtered.len()
                    && self.state().filtered[s as int] < self.state().items.len() && *t
                    == self.state().items[self.state().filtered[s as int] as int],
                None => !(self.state().selected matches Some(s) && s < self.state().filtered.len()
                    && self.state().filtered[s as int] < self.state().items.len()),
            },
    {
        self.base.selected_item()
    }

    /// The theme that confirming hands on: the selected one, if any.
    pub fn do_confirm(&self) -> (r: Option<&ThemeItem>)
        ensures
            match r {
                Some(t) => self.state().selected matches Some(s) && s < self.state().filtered.len()
                    && self.state().filtered[s as int] < self.state().items.len() && *t
                    == self.state().items[self.state().filtered[s as int] as int],
                None => !(self.state().selected matches Some(s) && s < self.state().filtered.len()
                    && self.state().filtered[s as int] < self.state().items.len()),
            },
    {
        self.base.selected_item()
    }

    /// Move the selection down one theme, wrapping to the first.
    pub fn select_down(&mut self)
        ensures
            final(self).state() == (BaseState {
                selected: if old(self).state().filtered.len() == 0 {
                    old(self).state().selected
                } else {
                    step_down(old(self).state().selected, old(self).state().filtered.len())
                },
                ..old(self).state()
            }),
    {
        self.base.select_down();
    }

    /// Move the selection up one theme, wrapping to the last.
    pub fn select_up(&mut self)
        ensures
            final(self).state() == (BaseState {
                selected: if old(self).state().filtered.len() == 0 {
                    old(self).state().selected
                } else {
                    step_up(old(self).state().selected, old(self).state().filtered.len())
                },
                ..old(self).state()
            }),
    {
        self.base.select_up();
    }

    /// All themes.
    pub fn items(&self) -> (s: &[ThemeItem])
        ensures
            s@ == self.state().items,
    {
        self.base.items()
    }
}

/// Lexicographic order of names, character by character by code point; a proper
/// prefix comes first.
pub open spec fn name_lt(a: Seq<char>, b: Seq<char>) -> bool
    decreases a.len(),
{
    if a.len() == 0 || b.len() == 0 {
        a.len() == 0 && b.len() > 0
    } else if a[0] != b[0] {
        (a[0] as u32) < (b[0] as u32)
    } else {
        name_lt(a.drop_first(), b.drop_first())
    }
}

/// The theme picker lists a theme named `a` before one named `b`: the current theme
/// before every other, the others by name.
pub open spec fn theme_before(a: Seq<char>, b: Seq<char>, current: Seq<char>) -> bool {
    if a == current {
        b != current
    } else if b == current {
        false
    } else {
        name_lt(a, b)
    }
}

/// Themes named `n`.
pub open spec fn named(n: Seq<char>) -> spec_fn(ThemeItem) -> bool {
    |t: ThemeItem| t.name@ == n
}

/// `r` is `items` in picker order: no theme is listed after one that it comes before,
/// and themes of one name keep the order they had in `items`.
pub open spec fn themes_in_order(items: Seq<ThemeItem>, current: Seq<char>, r: Seq<ThemeItem>) -> bool {
    &&& forall|i: int, j: int|
        0 <= i < j < r.len() ==> !theme_before(#[trigger] r[j].name@, #[trigger] r[i].name@, current)
    &&& forall|n: Seq<char>| #[trigger] r.filter(named(n)) == items.filter(named(n))
}

proof fn lemma_name_lt_irreflexive(a: Seq<char>)
    ensures
        !name_lt(a, a),
    decreases a.len(),
{
    if a.len() > 0 {
        lemma_name_lt_irreflexive(a.drop_first());
    }
}

proof fn lemma_name_lt_transitive(a: Seq<char>, b: Seq<char>, c: Seq<char>)
    requires
        name_lt(a, b),
        name_lt(b, c),
    ensures
        name_lt(a, c),
    decreases a.len(),
{
    if a.len() > 0 && b.len() > 0 && c.len() > 0 && a[0] == b[0] && b[0] == c[0] {
        lemma_name_lt_transitive(a.drop_first(), b.drop_first(), c.drop_first());
    }
}

proof fn lemma_before_transitive(a: Seq<char>, b: Seq<char>, c: Seq<char>, cur: Seq<char>)
    requires
        theme_before(a, b, cur),
        theme_before(b, c, cur),
    ensures
        theme_before(a, c, cur),
{
    if a != cur {
        lemma_name_lt_transitive(a, b, c);
    }
}

proof fn lemma_before_irreflexive(a: Seq<char>, cur: Seq<char>)
    ensures
        !theme_before(a, a, cur),
{
    lemma_name_lt_irreflexive(a);
}

fn name_lt_exec(a: &Vec<char>, b: &Vec<char>) -> (r: bool)
    ensures
        r == name_lt(a@, b@),
{
    let mut i: usize = 0;
    assert(a@.skip(0) == a@);
    assert(b@.skip(0) == b@);
    while i < a.len() && i < b.len()
        invariant
            i <= a.len(),
            i <= b.len(),
            name_lt(a@, b@) == name_lt(a@.skip(i as int), b@.skip(i as int)),
        decreases a.len() - i,
    {
        assert(a@.skip(i as int)[0] == a@[i as int]);
        assert(b@.skip(i as int)[0] == b@[i as int]);
        if a[i] != b[i] {
            return (a[i] as u32) < (b[i] as u32);
        }
        assert(a@.skip(i as int).drop_first() == a@.skip(i + 1));
        assert(b@.skip(i as int).drop_first() == b@.skip(i + 1));
        i = i + 1;
    }
    a.len() < b.len()
}

fn theme_before_exec(a: &Vec<char>, b: &Vec<char>, current: &Vec<char>) -> (r: bool)
    ensures
        r == theme_before(a@, b@, current@),
{
    if chars_eq(a, current) {
        !chars_eq(b, current)
    } else if chars_eq(b, current) {
        false
    } else {
        name_lt_exec(a, b)
    }
}

/// Index of the first theme of `rem` that no theme of `rem` comes before.
fn first_least(rem: &Vec<ThemeItem>, current: &Vec<char>) -> (b: usize)
    requires
        rem.len() > 0,
    ensures
        b < rem.len(),
        forall|t: int| 0 <= t < rem.len() ==> !theme_before(#[trigger] rem@[t].name@, rem@[b as int].name@, current@),
        forall|t: int| 0 <= t < b ==> #[trigger] rem@[t].name@ != rem@[b as int].name@,
{
    let mut b: usize = 0;
    let mut best = chars_of(rem[0].name.as_str());
    let mut k: usize = 1;
    proof {
        lemma_before_irreflexive(rem@[0].name@, current@);
    }
    while k < rem.len()
        invariant
            0 < k <= rem.len(),
            b < k,
            best@ == rem@[b as int].name@,
            forall|t: int| 0 <= t < k ==> !theme_before(#[trigger] rem@[t].name@, rem@[b as int].name@, current@),
            forall|t: int| 0 <= t < b ==> #[trigger] rem@[t].name@ != rem@[b as int].name@,
        decreases rem.len() - k,
    {
        let name = chars_of(rem[k].name.as_str());
        if theme_before_exec(&name, &best, current) {
            proof {
                let ob = rem@[b as int].name@;
                let nk = rem@[k as int].name@;
                lemma_before_irreflexive(nk, current@);
                assert forall|t: int| 0 <= t < k + 1 implies !theme_before(#[trigger] rem@[t].name@, nk, current@) by {
                    if t < k && theme_before(rem@[t].name@, nk, current@) {
                        lemma_before_transitive(rem@[t].name@, nk, ob, current@);
                    }
                }
                assert forall|t: int| 0 <= t < k implies #[trigger] rem@[t].name@ != nk by {
                    if rem@[t].name@ == nk {
                        assert(!theme_before(rem@[t].name@, ob, current@));
                    }
                }
            }
            b = k;
            best = name;
        }
        k = k + 1;
    }
    b
}

proof fn lemma_filter_none(s: Seq<ThemeItem>, p: spec_fn(ThemeItem) -> bool)
    requires
        forall|i: int| 0 <= i < s.len() ==> !p(#[trigger] s[i]),
    ensures
        s.filter(p) == Seq::<ThemeItem>::empty(),
    decreases s.len(),
{
    reveal(Seq::filter);
    if s.len() > 0 {
        lemma_filter_none(s.drop_last(), p);
        assert(!p(s[s.len() - 1]));
    }
}

proof fn lemma_filter_single(x: ThemeItem, p: spec_fn(ThemeItem) -> bool)
    ensures
        seq![x].filter(p) == (if p(x) {
            seq![x]
        } else {
            Seq::<ThemeItem>::empty()
        }),
{
    reveal_with_fuel(Seq::filter, 2);
    assert(seq![x].drop_last() == Seq::<ThemeItem>::empty());
}

proof fn lemma_filter_push(s: Seq<ThemeItem>, x: ThemeItem, p: spec_fn(ThemeItem) -> bool)
    ensures
        s.push(x).filter(p) == (if p(x) {
            s.filter(p).push(x)
        } else {
            s.filter(p)
        }),
{
    reveal(Seq::filter);
    assert(s.push(x).drop_last() == s);
}

/// Taking out the first theme of `rem` that no other comes before, at `b`: for its name,
/// the themes of that name lose their first one; other names keep theirs.
proof fn lemma_take_out(rem: Seq<ThemeItem>, b: int, n: Seq<char>)
    requires
        0 <= b < rem.len(),
        forall|t: int| 0 <= t < b ==> #[trigger] rem[t].name@ != rem[b].name@,
    ensures
        rem.filter(named(n)) == (if rem[b].name@ == n {
            seq![rem[b]] + rem.remove(b).filter(named(n))
        } else {
            rem.remove(b).filter(named(n))
        }),
{
    let p = named(n);
    let front = rem.take(b);
    let back = rem.skip(b + 1);
    assert(rem == front + seq![rem[b]] + back);
    assert(rem.remove(b) == front + back);
    Seq::filter_distributes_over_add(front + seq![rem[b]], back, p);
    Seq::filter_distributes_over_add(front, seq![rem[b]], p);
    Seq::filter_distributes_over_add(front, back, p);
    lemma_filter_single(rem[b], p);
    if rem[b].name@ == n {
        assert forall|i: int| 0 <= i < front.len() implies !p(#[trigger] front[i]) by {
            assert(front[i] == rem[i]);
        }
        lemma_filter_none(front, p);
        assert(front.filter(p) + seq![rem[b]] + back.filter(p) == seq![rem[b]] + (front.filter(p)
            + back.filter(p)));
    } else {
        assert(front.filter(p) + Seq::<ThemeItem>::empty() == front.filter(p));
    }
}

/// The themes in picker order: the theme named `current` first, then the others by
/// name; themes of one name keep their order.
pub fn order_themes(items: Vec<ThemeItem>, current: &str) -> (r: Vec<ThemeItem>)
    ensures
        themes_in_order(items@, current@, r@),
{
    let cur = chars_of(current);
    let ghost all = items@;
    let mut rem = items;
    let mut out: Vec<ThemeItem> = Vec::new();
    proof {
        assert forall|n: Seq<char>| #[trigger] out@.filter(named(n)) + rem@.filter(named(n)) == all.filter(named(n)) by {
            lemma_filter_none(out@, named(n));
            assert(Seq::<ThemeItem>::empty() + rem@.filter(named(n)) == rem@.filter(named(n)));
        }
    }
    while rem.len() > 0
        invariant
            cur@ == current@,
            forall|i: int, j: int|
                0 <= i < j < out.len() ==> !theme_before(#[trigger] out@[j].name@, #[trigger] out@[i].name@, current@),
            forall|i: int, j: int|
                0 <= i < out.len() && 0 <= j < rem.len() ==> !theme_before(#[trigger] rem@[j].name@, #[trigger] out@[i].name@, current@),
            forall|n: Seq<char>| #[trigger] out@.filter(named(n)) + rem@.filter(named(n)) == all.filter(named(n)),
        decreases rem.len(),
    {
        let b = first_least(&rem, &cur);
        let ghost before_rem = rem@;
        let ghost before_out = out@;
        let m = rem.remove(b);
        out.push(m);
        proof {
            assert(rem@ == before_rem.remove(b as int));
            assert(out@ == before_out.push(before_rem[b as int]));
            assert forall|n: Seq<char>| #[trigger] out@.filter(named(n)) + rem@.filter(named(n)) == all.filter(named(n)) by {
                lemma_take_out(before_rem, b as int, n);
                lemma_filter_push(before_out, before_rem[b as int], named(n));
                assert(before_out.filter(named(n)) + before_rem.filter(named(n)) == all.filter(named(n)));
                if before_rem[b as int].name@ == n {
                    assert(before_out.filter(named(n)).push(before_rem[b as int]) + rem@.filter(named(n))
                        == before_out.filter(named(n)) + (seq![before_rem[b as int]] + rem@.filter(named(n))));
                }
            }
            assert forall|i: int, j: int|
                0 <= i < j < out.len() implies !theme_before(#[trigger] out@[j].name@, #[trigger] out@[i].name@, current@) by {
                if j == out.len() - 1 && i < before_out.len() {
                    assert(out@[j] == before_rem[b as int]);
                    assert(out@[i] == before_out[i]);
                }
            }
            assert forall|i: int, j: int|
                0 <= i < out.len() && 0 <= j < rem.len() implies !theme_before(#[trigger] rem@[j].name@, #[trigger] out@[i].name@, current@) by {
                let jj = if j < b { j } else { j + 1 };
                assert(rem@[j] == before_rem[jj]);
                if i == out.len() - 1 {
                    assert(out@[i] == before_rem[b as int]);
                    assert(!theme_before(before_rem[jj].name@, before_rem[b as int].name@, current@));
                } else {
                    assert(out@[i] == before_out[i]);
                }
            }
        }
    }
    proof {
        assert forall|n: Seq<char>| #[trigger] out@.filter(named(n)) == all.filter(named(n)) by {
            lemma_filter_none(rem@, named(n));
            assert(out@.filter(named(n)) + Seq::<ThemeItem>::empty() == out@.filter(named(n)));
        }
    }
    out
}

/// When some theme has the current theme's name, the picker lists such a theme first.
pub proof fn law_current_theme_first(items: Seq<ThemeItem>, current: Seq<char>, r: Seq<ThemeItem>, i: int)
    requires
        themes_in_order(items, current, r),
        0 <= i < items.len(),
        items[i].name@ == current,
    ensures
        r.len() > 0,
        r[0].name@ == current,
{
    let p = named(current);
    items.lemma_filter_contains(p, i);
    let x = items[i];
    assert(r.filter(p) == items.filter(p));
    assert(r.filter(p).contains(x));
    r.lemma_filter_contains_rev(p, x);
    let j = choose|j: int| 0 <= j < r.len() && r[j] == x;
    assert(r[j].name@ == current);
    if r[0].name@ != current {
        assert(j > 0);
        assert(theme_before(r[j].name@, r[0].name@, current));
    }
}

/// After a query, a theme is visible exactly when the query is empty, or its lower-cased
/// name or description contains the lower-cased query anywhere.
pub proof fn law_theme_visible(items: Seq<ThemeItem>, query: Seq<char>, i: int)
    requires
        items.len() <= usize::MAX,
        0 <= i < items.len(),
    ensures
        theme_filter(items, query).contains(i as usize) <==> (query.len() == 0 || contains_block(lowercase(items[i].name@), lowercase(query)) || contains_block(
            lowercase(items[i].description@),
            lowercase(query),
        )),
{
    if query.len() == 0 {
        lemma_all_indices(items.len());
        assert(theme_filter(items, query)[i] == i as usize);
    } else {
        let p = |k: int| theme_matches(items[k], query);
        lemma_indices_where(items.len(), p);
        assert(p(i) == theme_matches(items[i], query));
    }
}

} // verus!
