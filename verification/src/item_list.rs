//! A plain list delegate for windows and applications: fuzzy filtering by name, two
//! sections (windows, then applications), and the selection.
use vstd::prelude::*;

use crate::base_delegate::{all_indices, first_selection, lemma_all_indices};
use crate::items::{name_of, priority_of, ListItem};
use crate::section_manager::{count_kind, lemma_count_kind_bound};
use crate::text::string_from;

verus! {

/// The score that `SkimMatcherV2::default()` gives for `choice` against `pattern`, or
/// `None` when `pattern` does not match.
pub uninterp spec fn skim_score(choice: Seq<char>, pattern: Seq<char>) -> Option<i64>;

/// `FuzzyMatcher::fuzzy_match` of a default `SkimMatcherV2`.
///
/// The result is named `skim_score(choice@, pattern@)`; the contract adds that an
/// empty pattern matches with score 0, as `skim.rs` shows.
#[verifier::external_body]
fn skim_fuzzy_match(choice: &str, pattern: &str) -> (r: Option<i64>)
    ensures
        r == skim_score(choice@, pattern@),
        pattern@.len() == 0 ==> r == Some(0i64),
{
    fuzzy_matcher::FuzzyMatcher::fuzzy_match(
        &fuzzy_matcher::skim::SkimMatcherV2::default(),
        choice,
        pattern,
    )
}

/// Section counts of the filtered items.
#[derive(Clone, Copy, Debug)]
pub struct SectionInfo {
    /// Number of windows in filtered results.
    pub window_count: usize,
    /// Number of applications in filtered results.
    pub app_count: usize,
}

/// The entries that filtering ranks: every item with score 0 for an empty query, else
/// the items whose name the query matches, with their scores, in index order.
pub open spec fn entries_upto(items: Seq<ListItem>, query: Seq<char>, n: int) -> Seq<(usize, i64)>
    decreases n,
{
    if n <= 0 {
        Seq::empty()
    } else {
        let prev = entries_upto(items, query, n - 1);
        if query.len() == 0 {
            prev.push(((n - 1) as usize, 0i64))
        } else {
            match skim_score(name_of(items[n - 1]), query) {
                Some(s) => prev.push(((n - 1) as usize, s)),
                None => prev,
            }
        }
    }
}

/// Ranking of entries: kind priority first (windows before applications), then higher
/// score, then lower index.
pub open spec fn entry_before(items: Seq<ListItem>, a: (usize, i64), b: (usize, i64)) -> bool {
    let pa = priority_of(items[a.0 as int]);
    let pb = priority_of(items[b.0 as int]);
    ||| pa < pb
    ||| pa == pb && a.1 > b.1
    ||| pa == pb && a.1 == b.1 && a.0 < b.0
}

/// What `filter_items_sync` gives: the indices of the entries for the query, each once,
/// ranked by `entry_before`.
pub open spec fn list_filter(items: Seq<ListItem>, query: Seq<char>, r: Seq<usize>) -> bool {
    exists|f: Seq<(usize, i64)>|
        {
            &&& #[trigger] f.to_set() == entries_upto(items, query, items.len() as int).to_set()
            &&& forall|i: int, j: int|
                0 <= i < j < f.len() ==> entry_before(items, #[trigger] f[i], #[trigger] f[j])
            &&& r == f.map_values(|e: (usize, i64)| e.0)
        }
}

/// The global index of row `row` of section `section`: applications follow the
/// windows when there are any.
pub open spec fn row_to_global(info: SectionInfo, section: int, row: int) -> int {
    if info.window_count > 0 && section == 1 {
        info.window_count + row
    } else {
        row
    }
}

/// A generic delegate for displaying and filtering list items.
pub struct ItemListDelegate {
    items: Vec<ListItem>,
    filtered_indices: Vec<usize>,
    section_info: SectionInfo,
    selected_index: Option<usize>,
    query: String,
}

fn compute_section_info(items: &[ListItem], filtered_indices: &[usize]) -> (info: SectionInfo)
    ensures
        info.window_count == count_kind(items@, filtered_indices@, 0),
        info.app_count == count_kind(items@, filtered_indices@, 2),
{
    let mut info = SectionInfo { window_count: 0, app_count: 0 };
    let mut i: usize = 0;
    while i < filtered_indices.len()
        invariant
            i <= filtered_indices.len(),
            info.window_count == count_kind(items@, filtered_indices@.take(i as int), 0),
            info.app_count == count_kind(items@, filtered_indices@.take(i as int), 2),
        decreases filtered_indices.len() - i,
    {
        proof {
            assert(filtered_indices@.take(i + 1).drop_last() == filtered_indices@.take(i as int));
            lemma_count_kind_bound(items@, filtered_indices@.take(i as int), 0);
            lemma_count_kind_bound(items@, filtered_indices@.take(i as int), 2);
        }
        let item_idx = filtered_indices[i];
        if item_idx < items.len() {
            let item = &items[item_idx];
            if item.is_window() {
                info.window_count = info.window_count + 1;
            } else if item.is_application() {
                info.app_count = info.app_count + 1;
            }
        }
        i = i + 1;
    }
    assert(filtered_indices@.take(filtered_indices.len() as int) == filtered_indices@);
    info
}

fn entry_key_before(items: &[ListItem], a: (usize, i64), b: (usize, i64)) -> (r: bool)
    requires
        a.0 < items.len(),
        b.0 < items.len(),
    ensures
        r == entry_before(items@, a, b),
{
    let pa = items[a.0].sort_priority();
    let pb = items[b.0].sort_priority();
    pa < pb || (pa == pb && a.1 > b.1) || (pa == pb && a.1 == b.1 && a.0 < b.0)
}

impl ItemListDelegate {
    /// All items.
    pub closed spec fn items_spec(&self) -> Seq<ListItem> {
        self.items@
    }

    /// The visible indices, in display order.
    pub closed spec fn filtered(&self) -> Seq<usize> {
        self.filtered_indices@
    }

    /// The section counts.
    pub closed spec fn info(&self) -> SectionInfo {
        self.section_info
    }

    /// The selected position.
    pub closed spec fn selected(&self) -> Option<usize> {
        self.selected_index
    }

    /// The current query.
    pub closed spec fn query_spec(&self) -> Seq<char> {
        self.query@
    }

    /// The section counts are those of the visible items.
    pub open spec fn wf(&self) -> bool {
        &&& self.info().window_count == count_kind(self.items_spec(), self.filtered(), 0)
        &&& self.info().app_count == count_kind(self.items_spec(), self.filtered(), 2)
    }

    /// A delegate showing all `items` in order, the first one selected.
    pub fn new(items: Vec<ListItem>) -> (d: Self)
        ensures
            d.wf(),
            d.items_spec() == items@,
            d.filtered() == all_indices(items@.len()),
            d.selected() == first_selection(items@.len()),
            d.query_spec() == Seq::<char>::empty(),
    {
        let len = items.len();
        let filtered_indices = crate::base_delegate::index_range(len);
        let section_info = compute_section_info(items.as_slice(), filtered_indices.as_slice());
        ItemListDelegate {
            items,
            filtered_indices,
            section_info,
            selected_index: if len > 0 {
                Some(0)
            } else {
                None
            },
            query: String::new(),
        }
    }

    /// All items.
    pub fn items(&self) -> (s: &[ListItem])
        ensures
            s@ == self.items_spec(),
    {
        self.items.as_slice()
    }

    /// The indices that `query` shows, ranked: windows before applications, higher
    /// scores first, ties in item order; for an empty query every item, windows first.
    pub fn filter_items_sync(items: &[ListItem], query: &str) -> (r: Vec<usize>)
        ensures
            list_filter(items@, query@, r@),
    {
        let empty = query.is_empty();
        let mut ranked: Vec<(usize, i64)> = Vec::new();
        let mut i: usize = 0;
        while i < items.len()
            invariant
                i <= items.len(),
                empty == (query@.len() == 0),
                forall|k: int| 0 <= k < ranked.len() ==> (#[trigger] ranked@[k]).0 < i,
                forall|a: int, b: int|
                    0 <= a < b < ranked.len() ==> entry_before(
                        items@,
                        #[trigger] ranked@[a],
                        #[trigger] ranked@[b],
                    ),
                ranked@.to_set() == entries_upto(items@, query@, i as int).to_set(),
            decreases items.len() - i,
        {
            let ghost before = ranked@;
            let score = if empty {
                Some(0i64)
            } else {
                let name = string_from(&crate::text::chars_of(items[i].name()));
                skim_fuzzy_match(name.as_str(), query)
            };
            proof {
                broadcast use vstd::seq::Seq::lemma_push_to_set_commute;
                let prev = entries_upto(items@, query@, i as int);
                if let Some(sc) = score {
                    assert(entries_upto(items@, query@, i + 1) == prev.push((i, sc)));
                } else {
                    assert(entries_upto(items@, query@, i + 1) == prev);
                }
            }
            if let Some(sc) = score {
                let entry = (i, sc);
                let mut p: usize = ranked.len();
                while p > 0 && entry_key_before(items, entry, ranked[p - 1])
                    invariant
                        p <= ranked.len(),
                        ranked@ == before,
                        i < items.len(),
                        entry == (i, sc),
                        forall|k: int| 0 <= k < ranked.len() ==> (#[trigger] ranked@[k]).0 < i,
                        forall|k: int|
                            p <= k < ranked.len() ==> entry_before(items@, entry, #[trigger] ranked@[k]),
                    decreases p,
                {
                    p = p - 1;
                }
                proof {
                    assert forall|k: int| 0 <= k < p implies entry_before(
                        items@,
                        #[trigger] ranked@[k],
                        entry,
                    ) by {
                        let last = ranked@[p - 1];
                        assert(!entry_before(items@, entry, last));
                        if k < p - 1 {
                            assert(entry_before(items@, ranked@[k], last));
                        }
                    }
                }
                ranked.insert(p, entry);
                proof {
                    let s = ranked@;
                    assert(s == before.insert(p as int, entry));
                    assert forall|a: int, b: int| 0 <= a < b < s.len() implies entry_before(
                        items@,
                        #[trigger] s[a],
                        #[trigger] s[b],
                    ) by {
                        if b < p {
                        } else if b == p {
                        } else if a < p {
                            assert(s[b] == before[b - 1]);
                            assert(entry_before(items@, before[a], entry));
                            assert(entry_before(items@, entry, before[b - 1]));
                        } else if a == p {
                            assert(s[b] == before[b - 1]);
                        } else {
                            assert(s[a] == before[a - 1]);
                            assert(s[b] == before[b - 1]);
                        }
                    }
                    assert(s.to_set() == before.to_set().insert(entry)) by {
                        assert forall|x: (usize, i64)| s.to_set().contains(x) <==> before.to_set().insert(
                            entry,
                        ).contains(x) by {
                            if s.to_set().contains(x) {
                                let k = choose|k: int| 0 <= k < s.len() && s[k] == x;
                                if k < p {
                                    assert(before[k] == x);
                                } else if k > p {
                                    assert(before[k - 1] == x);
                                }
                            }
                            if before.to_set().contains(x) {
                                let k = choose|k: int| 0 <= k < before.len() && before[k] == x;
                                if k < p {
                                    assert(s[k] == x);
                                } else {
                                    assert(s[k + 1] == x);
                                }
                            }
                            if x == entry {
                                assert(s[p as int] == x);
                            }
                        }
                    }
                    assert forall|k: int| 0 <= k < s.len() implies (#[trigger] s[k]).0 < i + 1 by {
                        if k < p {
                            assert(s[k] == before[k]);
                        } else if k > p {
                            assert(s[k] == before[k - 1]);
                        }
                    }
                }
            }
            i = i + 1;
        }
        let mut r: Vec<usize> = Vec::new();
        let mut j: usize = 0;
        while j < ranked.len()
            invariant
                j <= ranked.len(),
                r@ == ranked@.take(j as int).map_values(|e: (usize, i64)| e.0),
            decreases ranked.len() - j,
        {
            r.push(ranked[j].0);
            j = j + 1;
            assert(ranked@.take(j as int).map_values(|e: (usize, i64)| e.0) == ranked@.take(
                j - 1 as int,
            ).map_values(|e: (usize, i64)| e.0).push(ranked@[j - 1].0));
        }
        assert(ranked@.take(ranked.len() as int) == ranked@);
        let ghost f = ranked@;
        assert(f.to_set() == entries_upto(items@, query@, items.len() as int).to_set());
        r
    }

    /// Show pre-computed filter results, the first one selected, when `query` is still
    /// the current query; otherwise nothing changes.
    pub fn apply_filter_results(&mut self, query: String, indices: Vec<usize>)
        requires
            old(self).wf(),
        ensures
            final(self).wf(),
            final(self).items_spec() == old(self).items_spec(),
            final(self).query_spec() == old(self).query_spec(),
            query@ == old(self).query_spec() ==> final(self).filtered() == indices@
                && final(self).selected() == first_selection(indices@.len()),
            query@ != old(self).query_spec() ==> final(self).filtered() == old(self).filtered()
                && final(self).selected() == old(self).selected(),
    {
        let same = crate::text::chars_eq(
            &crate::text::chars_of(self.query.as_str()),
            &crate::text::chars_of(query.as_str()),
        );
        if same {
            self.section_info = compute_section_info(self.items.as_slice(), indices.as_slice());
            self.filtered_indices = indices;
            self.selected_index = if self.filtered_indices.len() == 0 {
                None
            } else {
                Some(0)
            };
        }
    }

    fn filter_items(&mut self)
        ensures
            final(self).wf(),
            final(self).items_spec() == old(self).items_spec(),
            final(self).query_spec() == old(self).query_spec(),
            list_filter(old(self).items_spec(), old(self).query_spec(), final(self).filtered()),
            final(self).selected() == first_selection(final(self).filtered().len()),
    {
        self.filtered_indices = Self::filter_items_sync(self.items.as_slice(), self.query.as_str());
        self.section_info = compute_section_info(
            self.items.as_slice(),
            self.filtered_indices.as_slice(),
        );
        self.selected_index = if self.filtered_indices.len() == 0 {
            None
        } else {
            Some(0)
        };
    }

    /// The item at visible position `row`, if any.
    pub fn get_item_at(&self, row: usize) -> (r: Option<&ListItem>)
        ensures
            match r {
                Some(t) => row < self.filtered().len() && self.filtered()[row as int]
                    < self.items_spec().len() && *t == self.items_spec()[self.filtered()[row as int] as int],
                None => !(row < self.filtered().len() && self.filtered()[row as int]
                    < self.items_spec().len()),
            },
    {
        if row < self.filtered_indices.len() {
            let idx = self.filtered_indices[row];
            if idx < self.items.len() {
                return Some(&self.items[idx]);
            }
        }
        None
    }

    /// The item at row `row` of section `section`, if any.
    pub fn get_item_at_section(&self, section: usize, row: usize) -> (r: Option<&ListItem>)
        requires
            self.info().window_count + row <= usize::MAX,
        ensures
            ({
                let g = row_to_global(self.info(), section as int, row as int);
                match r {
                    Some(t) => g < self.filtered().len() && self.filtered()[g] < self.items_spec().len()
                        && *t == self.items_spec()[self.filtered()[g] as int],
                    None => !(g < self.filtered().len() && self.filtered()[g] < self.items_spec().len()),
                }
            }),
    {
        let global_row = self.section_row_to_global(section, row);
        self.get_item_at(global_row)
    }

    /// The global index of row `row` of section `section`.
    pub fn section_row_to_global(&self, section: usize, row: usize) -> (g: usize)
        requires
            self.info().window_count + row <= usize::MAX,
        ensures
            g == row_to_global(self.info(), section as int, row as int),
    {
        let has_windows = self.section_info.window_count > 0;
        if has_windows && section == 1 {
            self.section_info.window_count + row
        } else {
            row
        }
    }

    /// The (section, row) position of a global index.
    pub fn global_to_section_row(&self, global: usize) -> (p: (usize, usize))
        ensures
            p == (if self.info().window_count > 0 && global >= self.info().window_count {
                (1usize, (global - self.info().window_count) as usize)
            } else {
                (0usize, global)
            }),
    {
        let has_windows = self.section_info.window_count > 0;
        if has_windows && global >= self.section_info.window_count {
            (1, global - self.section_info.window_count)
        } else {
            (0, global)
        }
    }

    /// Clear the query and filter again.
    pub fn clear_query(&mut self)
        ensures
            final(self).wf(),
            final(self).items_spec() == old(self).items_spec(),
            final(self).query_spec() == Seq::<char>::empty(),
            list_filter(old(self).items_spec(), Seq::<char>::empty(), final(self).filtered()),
            final(self).selected() == first_selection(final(self).filtered().len()),
    {
        self.query = String::new();
        self.filter_items();
    }

    /// Set the query and filter.
    pub fn set_query(&mut self, query: String)
        ensures
            final(self).wf(),
            final(self).items_spec() == old(self).items_spec(),
            final(self).query_spec() == query@,
            list_filter(old(self).items_spec(), query@, final(self).filtered()),
            final(self).selected() == first_selection(final(self).filtered().len()),
    {
        self.query = query;
        self.filter_items();
    }

    /// Set the query without filtering (the results come later, computed elsewhere).
    pub fn set_query_only(&mut self, query: String)
        ensures
            final(self).items_spec() == old(self).items_spec(),
            final(self).filtered() == old(self).filtered(),
            final(self).info() == old(self).info(),
            final(self).selected() == old(self).selected(),
            final(self).query_spec() == query@,
    {
        self.query = query;
    }

    /// The current query.
    pub fn query(&self) -> (q: &str)
        ensures
            q@ == self.query_spec(),
    {
        self.query.as_str()
    }

    /// Number of visible items.
    pub fn filtered_count(&self) -> (n: usize)
        ensures
            n == self.filtered().len(),
    {
        self.filtered_indices.len()
    }

    /// The selected position.
    pub fn selected_index(&self) -> (s: Option<usize>)
        ensures
            s == self.selected(),
    {
        self.selected_index
    }

    /// Select position `index`.
    pub fn set_selected(&mut self, index: usize)
        ensures
            final(self).items_spec() == old(self).items_spec(),
            final(self).filtered() == old(self).filtered(),
            final(self).info() == old(self).info(),
            final(self).query_spec() == old(self).query_spec(),
            final(self).selected() == Some(index),
    {
        self.selected_index = Some(index);
    }

    /// The item that confirming hands on: the selected one, if any.
    pub fn do_confirm(&self) -> (r: Option<&ListItem>)
        ensures
            match r {
                Some(t) => self.selected() matches Some(s) && s < self.filtered().len()
                    && self.filtered()[s as int] < self.items_spec().len() && *t
                    == self.items_spec()[self.filtered()[s as int] as int],
                None => !(self.selected() matches Some(s) && s < self.filtered().len()
                    && self.filtered()[s as int] < self.items_spec().len()),
            },
    {
        match self.selected_index {
            Some(idx) => self.get_item_at(idx),
            None => None,
        }
    }

    /// Number of sections: windows and applications, each when it has items.
    pub fn sections_count(&self) -> (n: usize)
        ensures
            n == (if self.info().window_count > 0 {
                1int
            } else {
                0
            }) + (if self.info().app_count > 0 {
                1int
            } else {
                0
            }),
    {
        let has_windows = self.section_info.window_count > 0;
        let has_apps = self.section_info.app_count > 0;
        match (has_windows, has_apps) {
            (true, true) => 2,
            (true, false) => 1,
            (false, true) => 1,
            (false, false) => 0,
        }
    }

    /// Number of items in section `section`.
    pub fn items_count(&self, section: usize) -> (n: usize)
        ensures
            n == (if self.info().window_count > 0 && section == 0 {
                self.info().window_count
            } else {
                self.info().app_count
            }),
    {
        let has_windows = self.section_info.window_count > 0;
        if has_windows {
            if section == 0 {
                self.section_info.window_count
            } else {
                self.section_info.app_count
            }
        } else {
            self.section_info.app_count
        }
    }

    /// The title above section `section`, shown only when both windows and
    /// applications are listed.
    pub fn section_header(&self, section: usize) -> (h: Option<&'static str>)
        ensures
            !(self.info().window_count > 0 && self.info().app_count > 0) ==> h is None,
            self.info().window_count > 0 && self.info().app_count > 0 ==> (h matches Some(t) && t@
                == (if section == 0 {
                "Windows"@
            } else {
                "Applications"@
            })),
    {
        let has_windows = self.section_info.window_count > 0;
        let has_apps = self.section_info.app_count > 0;
        if !has_windows || !has_apps {
            return None;
        }
        Some(
            if section == 0 {
                "Windows"
            } else {
                "Applications"
            },
        )
    }

    /// The item shown at a (section, row) position, with its global index and whether
    /// it is selected.
    pub fn item_at_index_path(&self, section: usize, row: usize) -> (r: Option<(usize, bool, &ListItem)>)
        requires
            self.info().window_count + row <= usize::MAX,
        ensures
            ({
                let g = row_to_global(self.info(), section as int, row as int);
                match r {
                    Some(x) => x.0 == g && x.1 == (self.selected() == Some(g as usize)) && g
                        < self.filtered().len() && self.filtered()[g] < self.items_spec().len()
                        && *x.2 == self.items_spec()[self.filtered()[g] as int],
                    None => !(g < self.filtered().len() && self.filtered()[g] < self.items_spec().len()),
                }
            }),
    {
        let item = match self.get_item_at_section(section, row) {
            Some(item) => item,
            None => return None,
        };
        let global_idx = self.section_row_to_global(section, row);
        let selected = match self.selected_index {
            Some(s) => s == global_idx,
            None => false,
        };
        Some((global_idx, selected, item))
    }

    /// Select the item at a (section, row) position, or clear the selection.
    pub fn set_selected_index_path(&mut self, ix: Option<(usize, usize)>)
        requires
            ix matches Some(p) ==> old(self).info().window_count + p.1 <= usize::MAX,
        ensures
            final(self).items_spec() == old(self).items_spec(),
            final(self).filtered() == old(self).filtered(),
            final(self).info() == old(self).info(),
            final(self).query_spec() == old(self).query_spec(),
            final(self).selected() == match ix {
                Some(p) => Some(row_to_global(old(self).info(), p.0 as int, p.1 as int) as usize),
                None => None,
            },
    {
        self.selected_index = match ix {
            Some(p) => Some(self.section_row_to_global(p.0, p.1)),
            None => None,
        };
    }
}

} // verus!
