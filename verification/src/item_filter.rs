//! Fuzzy filtering and scoring of list items.
//!
//! Matches come from the skim algorithm of the `fuzzy-matcher` crate. The score of a
//! match is then adjusted: exact, prefix and word-prefix bonuses for name matches, a
//! contiguity bonus, a penalty for description matches, and multipliers that demote
//! actions and submenus.
use vstd::prelude::*;

use crate::config::{config_bound, ConfigModule, FuzzyMatchConfig};
use crate::items::{description_of, module_of, name_of, ListItem};
use crate::text::{
    chars_of, contains_char, has_prefix, is_whitespace, is_ws, lowercase, replace_char,
    replace_chars, starts_with, string_from, sub_vec, to_lowercase, chars_eq,
};

verus! {

/// A filtered item with its index and score.
#[derive(Debug, Clone, Copy)]
pub struct FilteredItem {
    /// Index into the original items.
    pub index: usize,
    /// Fuzzy match score (higher is better).
    pub score: i64,
}

/// The score and matched character positions that `SkimMatcherV2::default()` gives
/// for `choice` against `pattern`, or `None` when `pattern` does not match.
pub uninterp spec fn skim_indices(choice: Seq<char>, pattern: Seq<char>) -> Option<(i64, Seq<usize>)>;

/// `FuzzyMatcher::fuzzy_indices` of a default `SkimMatcherV2`.
///
/// The result is named `skim_indices(choice@, pattern@)`. Besides that name, the
/// contract states two facts that `skim.rs` shows: an empty pattern matches with score 0
/// and no positions, and a score is an `i32` widened to `i64`.
#[verifier::external_body]
fn skim_fuzzy_indices(choice: &str, pattern: &str) -> (r: Option<(i64, Vec<usize>)>)
    ensures
        r is Some <==> skim_indices(choice@, pattern@) is Some,
        r matches Some((s, v)) ==> skim_indices(choice@, pattern@) == Some((s, v@)),
        r matches Some((s, v)) ==> i32::MIN <= s <= i32::MAX,
        r matches Some((s, v)) ==> (pattern@.len() == 0 ==> s == 0 && v@.len() == 0),
        r is Some || pattern@.len() > 0,
{
    fuzzy_matcher::FuzzyMatcher::fuzzy_indices(
        &fuzzy_matcher::skim::SkimMatcherV2::default(),
        choice,
        pattern,
    )
}

/// `s` without any `c`.
pub open spec fn remove_char(s: Seq<char>, c: char) -> Seq<char>
    decreases s.len(),
{
    if s.len() == 0 {
        s
    } else {
        let rest = remove_char(s.drop_last(), c);
        if s.last() == c {
            rest
        } else {
            rest.push(s.last())
        }
    }
}

/// The match of `query` in `text`: the query as written, else (when it holds a space)
/// with its spaces removed, else with its spaces turned into hyphens.
pub open spec fn fuzzy_match_of(text: Seq<char>, query: Seq<char>) -> Option<(i64, Seq<usize>)> {
    match skim_indices(text, query) {
        Some(r) => Some(r),
        None => if query.contains(' ') {
            match skim_indices(text, remove_char(query, ' ')) {
                Some(r) => Some(r),
                None => skim_indices(text, replace_char(query, ' ', '-')),
            }
        } else {
            None
        },
    }
}

/// `text[i..j]` is a whitespace-delimited word of `text`.
pub open spec fn is_word(text: Seq<char>, i: int, j: int) -> bool {
    &&& 0 <= i < j <= text.len()
    &&& forall|k: int| i <= k < j ==> !is_ws(#[trigger] text[k])
    &&& (i == 0 || is_ws(text[i - 1]))
    &&& (j == text.len() || is_ws(text[j]))
}

/// Some word of `text`, lowercased, starts with the lowercased `query`.
pub open spec fn word_start_match(text: Seq<char>, query: Seq<char>) -> bool {
    exists|i: int, j: int|
        #![trigger is_word(text, i, j)]
        is_word(text, i, j) && has_prefix(lowercase(text.subrange(i, j)), lowercase(query))
}

/// Division by `d` rounding toward zero.
pub open spec fn trunc_div(x: int, d: int) -> int {
    if x >= 0 {
        x / d
    } else {
        -((-x) / d)
    }
}

/// `x` scaled by `permille` thousandths, rounded toward zero.
pub open spec fn scale(x: int, permille: int) -> int {
    trunc_div(x * permille, 1000)
}

/// `x` saturated to the `i64` range.
pub open spec fn clamp_i64(x: int) -> int {
    if x > i64::MAX {
        i64::MAX as int
    } else if x < i64::MIN {
        i64::MIN as int
    } else {
        x
    }
}

/// Number of positions in `idxs` directly followed by the next position.
pub open spec fn adjacent_pairs(idxs: Seq<usize>) -> nat
    decreases idxs.len(),
{
    if idxs.len() <= 1 {
        0
    } else {
        adjacent_pairs(idxs.drop_last()) + (if idxs.last() == idxs[idxs.len() - 2] + 1 {
            1nat
        } else {
            0nat
        })
    }
}

/// Share of the contiguity bonus that matched positions earn: all of it for at most one
/// position, else the bonus times the fraction of adjacent pairs, rounded toward zero.
pub open spec fn contiguity_bonus_of(idxs: Seq<usize>, bonus: int) -> int {
    if idxs.len() <= 1 {
        bonus
    } else {
        trunc_div(adjacent_pairs(idxs) * bonus, idxs.len() - 1)
    }
}

/// The thousandths by which an item's score is multiplied.
pub open spec fn item_factor(item: ListItem, cfg: FuzzyMatchConfig) -> int {
    match item {
        ListItem::Action(_) => cfg.action_score_multiplier_permille as int,
        ListItem::Submenu(_) => cfg.submenu_score_multiplier_permille as int,
        _ => 1000,
    }
}

/// The adjusted score of matching `query` against `text` (a name, or a description
/// when `is_description`) of an item whose factor is `factor`.
pub open spec fn text_score(
    text: Seq<char>,
    query: Seq<char>,
    cfg: FuzzyMatchConfig,
    is_description: bool,
    factor: int,
) -> Option<i64> {
    match fuzzy_match_of(text, query) {
        None => None,
        Some((base, idxs)) => {
            let bonus = if is_description {
                0
            } else if lowercase(text) == lowercase(query) {
                cfg.exact_match_bonus as int
            } else if has_prefix(lowercase(text), lowercase(query)) {
                cfg.prefix_match_bonus as int
            } else if word_start_match(text, query) {
                cfg.word_prefix_bonus as int
            } else {
                0
            };
            let s1 = base + bonus + contiguity_bonus_of(idxs, cfg.contiguity_bonus as int);
            let s2 = if is_description {
                clamp_i64(scale(s1, cfg.description_penalty_permille as int))
            } else {
                s1
            };
            Some(clamp_i64(scale(s2, factor)) as i64)
        },
    }
}

/// The score of an item: its name's match, else its description's, else no match.
pub open spec fn item_score(item: ListItem, query: Seq<char>, cfg: FuzzyMatchConfig) -> Option<i64> {
    match text_score(name_of(item), query, cfg, false, item_factor(item, cfg)) {
        Some(s) => Some(s),
        None => match description_of(item) {
            Some(d) => text_score(d, query, cfg, true, item_factor(item, cfg)),
            None => None,
        },
    }
}

/// The matching items among the first `n`, in index order, with their scores.
pub open spec fn scored_upto(
    items: Seq<ListItem>,
    query: Seq<char>,
    cfg: FuzzyMatchConfig,
    n: int,
) -> Seq<FilteredItem>
    decreases n,
{
    if n <= 0 {
        Seq::empty()
    } else {
        let prev = scored_upto(items, query, cfg, n - 1);
        match item_score(items[n - 1], query, cfg) {
            Some(s) => prev.push(FilteredItem { index: (n - 1) as usize, score: s }),
            None => prev,
        }
    }
}

/// Position of `m` in `modules`, or `usize::MAX` when absent.
pub open spec fn module_pos(modules: Seq<ConfigModule>, m: ConfigModule) -> int {
    if modules.contains(m) {
        first_pos(modules, m, 0)
    } else {
        usize::MAX as int
    }
}

/// First position of `m` in `modules` at or after `k`.
pub open spec fn first_pos(modules: Seq<ConfigModule>, m: ConfigModule, k: int) -> int
    decreases modules.len() - k,
{
    if k < 0 || k >= modules.len() {
        modules.len() as int
    } else if modules[k] == m {
        k
    } else {
        first_pos(modules, m, k + 1)
    }
}

/// The order of filtered results: module position first, then higher score, then
/// lower index (the order a stable sort of index-ordered entries gives).
pub open spec fn ranks_before(
    items: Seq<ListItem>,
    modules: Seq<ConfigModule>,
    a: FilteredItem,
    b: FilteredItem,
) -> bool {
    let pa = module_pos(modules, module_of(items[a.index as int]));
    let pb = module_pos(modules, module_of(items[b.index as int]));
    ||| pa < pb
    ||| pa == pb && a.score > b.score
    ||| pa == pb && a.score == b.score && a.index < b.index
}

/// `r` is ordered strictly by `ranks_before`.
pub open spec fn ranked(items: Seq<ListItem>, modules: Seq<ConfigModule>, r: Seq<FilteredItem>) -> bool {
    forall|i: int, j: int|
        0 <= i < j < r.len() ==> ranks_before(items, modules, #[trigger] r[i], #[trigger] r[j])
}

/// What filtering gives: for an empty query every item with score 0, in order; else
/// exactly the matching items with their scores, ordered by `ranks_before`.
pub open spec fn filter_result(
    items: Seq<ListItem>,
    query: Seq<char>,
    modules: Seq<ConfigModule>,
    cfg: FuzzyMatchConfig,
    r: Seq<FilteredItem>,
) -> bool {
    &&& query.len() == 0 ==> r == Seq::new(
        items.len() as nat,
        |i: int| FilteredItem { index: i as usize, score: 0 },
    )
    &&& query.len() > 0 ==> {
        &&& ranked(items, modules, r)
        &&& r.to_set() == scored_upto(items, query, cfg, items.len() as int).to_set()
    }
}

/// Fuzzy filter for list items with enhanced scoring.
pub struct ItemFilter {
    /// Configuration for scoring adjustments.
    pub config: FuzzyMatchConfig,
}

pub(crate) fn module_position(modules: &Vec<ConfigModule>, m: ConfigModule) -> (p: usize)
    ensures
        p as int == module_pos(modules@, m),
{
    let mut k: usize = 0;
    while k < modules.len()
        invariant
            k <= modules.len(),
            forall|j: int| 0 <= j < k ==> modules@[j] != m,
            first_pos(modules@, m, 0) == first_pos(modules@, m, k as int),
        decreases modules.len() - k,
    {
        if modules[k] == m {
            assert(modules@.contains(m));
            return k;
        }
        k = k + 1;
    }
    usize::MAX
}

fn remove_chars(v: &Vec<char>, c: char) -> (r: Vec<char>)
    ensures
        r@ == remove_char(v@, c),
{
    let mut r: Vec<char> = Vec::new();
    let mut i: usize = 0;
    while i < v.len()
        invariant
            i <= v.len(),
            r@ == remove_char(v@.take(i as int), c),
        decreases v.len() - i,
    {
        assert(v@.take(i + 1).drop_last() == v@.take(i as int));
        if v[i] != c {
            r.push(v[i]);
        }
        i = i + 1;
    }
    assert(v@.take(v.len() as int) == v@);
    r
}

fn fuzzy_match(text: &str, query: &str) -> (r: Option<(i64, Vec<usize>)>)
    ensures
        match r {
            Some((s, v)) => fuzzy_match_of(text@, query@) == Some((s, v@)) && i32::MIN <= s
                <= i32::MAX,
            None => fuzzy_match_of(text@, query@) is None,
        },
{
    let first = skim_fuzzy_indices(text, query);
    if first.is_some() {
        return first;
    }
    let q = chars_of(query);
    if !contains_char(&q, ' ') {
        return None;
    }
    let no_spaces = string_from(&remove_chars(&q, ' '));
    let second = skim_fuzzy_indices(text, no_spaces.as_str());
    if second.is_some() {
        return second;
    }
    let with_hyphens = string_from(&replace_chars(&q, ' ', '-'));
    skim_fuzzy_indices(text, with_hyphens.as_str())
}

/// Whether some whitespace-delimited word of `text`, lowercased, starts with the
/// lowercased `query`.
pub fn matches_word_start(text: &str, query: &str) -> (b: bool)
    ensures
        b == word_start_match(text@, query@),
{
    let t = chars_of(text);
    let q_lower = chars_of(to_lowercase(query).as_str());
    let n = t.len();
    let mut i: usize = 0;
    while i < n
        invariant
            n == t.len(),
            t@ == text@,
            q_lower@ == lowercase(query@),
            i <= n,
            i < n && !is_ws(t@[i as int]) ==> (i == 0 || is_ws(t@[i - 1])),
            forall|a: int, b: int|
                #![trigger is_word(text@, a, b)]
                is_word(text@, a, b) && a < i ==> !has_prefix(
                    lowercase(text@.subrange(a, b)),
                    lowercase(query@),
                ),
        decreases n - i,
    {
        if is_whitespace(t[i]) {
            i = i + 1;
        } else {
            let start = i;
            let mut j = i;
            while j < n && !is_whitespace(t[j])
                invariant
                    start <= j <= n == t.len(),
                    forall|k: int| start <= k < j ==> !is_ws(#[trigger] t@[k]),
                decreases n - j,
            {
                j = j + 1;
            }
            proof {
                assert(start == 0 || is_ws(t@[start - 1]));
                assert(is_word(text@, start as int, j as int));
                assert forall|a: int, b: int|
                    #![trigger is_word(text@, a, b)]
                    is_word(text@, a, b) && start <= a < j implies a == start && b == j by {
                    if a > start {
                        assert(!is_ws(t@[a - 1]));
                    }
                    if b < j {
                        assert(!is_ws(t@[b]));
                    }
                    if b > j {
                        assert(!is_ws(t@[j as int]));
                    }
                }
            }
            let word = string_from(&sub_vec(&t, start, j));
            let w_lower = chars_of(to_lowercase(word.as_str()).as_str());
            if starts_with(&w_lower, &q_lower) {
                return true;
            }
            i = j;
        }
    }
    false
}

/// `x` times `permille` thousandths, rounded toward zero, saturated to `i64`.
fn scale_i64(x: i128, permille: i64) -> (r: i64)
    requires
        -0x1_0000_0000_0000_0000_0000 <= x <= 0x1_0000_0000_0000_0000_0000,
        -config_bound() <= permille <= config_bound(),
    ensures
        r == clamp_i64(scale(x as int, permille as int)),
{
    assert(-0x1_0000_0000_0000_0000_0000 * 0x1_0000_0000 <= x * permille <= 0x1_0000_0000_0000_0000_0000
        * 0x1_0000_0000) by (nonlinear_arith)
        requires
            -0x1_0000_0000_0000_0000_0000 <= x <= 0x1_0000_0000_0000_0000_0000,
            -0x1_0000_0000 <= permille <= 0x1_0000_0000,
    ;
    let p = x * (permille as i128);
    let q: i128 = if p >= 0 {
        p / 1000
    } else {
        -((-p) / 1000)
    };
    if q > i64::MAX as i128 {
        i64::MAX
    } else if q < i64::MIN as i128 {
        i64::MIN
    } else {
        q as i64
    }
}

impl ItemFilter {
    /// A filter with the given scoring configuration.
    pub fn new(config: FuzzyMatchConfig) -> (f: Self)
        ensures
            f.config == config,
    {
        ItemFilter { config }
    }

    /// The bonus for how contiguous the matched positions are: the full bonus for at
    /// most one position, else the bonus times the share of adjacent pairs.
    pub fn calculate_contiguity_bonus(&self, indices: &Vec<usize>) -> (b: i64)
        requires
            self.config.wf(),
        ensures
            b == contiguity_bonus_of(indices@, self.config.contiguity_bonus as int),
    {
        let bonus = self.config.contiguity_bonus;
        if indices.len() <= 1 {
            return bonus;
        }
        let mut adjacent: usize = 0;
        let mut k: usize = 1;
        while k < indices.len()
            invariant
                1 <= k <= indices.len(),
                adjacent == adjacent_pairs(indices@.take(k as int)),
                adjacent < k,
            decreases indices.len() - k,
        {
            proof {
                let t = indices@.take(k + 1);
                assert(t.drop_last() == indices@.take(k as int));
            }
            if indices[k - 1] < usize::MAX && indices[k] == indices[k - 1] + 1 {
                adjacent = adjacent + 1;
            }
            k = k + 1;
        }
        assert(indices@.take(indices.len() as int) == indices@);
        let n = (indices.len() - 1) as i128;
        let a = adjacent as i128;
        assert(0 <= a <= n);
        assert(n <= 0xFFFF_FFFF_FFFF_FFFF);
        assert(-0x1_0000_0000 * n <= a * bonus <= 0x1_0000_0000 * n) by (nonlinear_arith)
            requires
                0 <= a <= n,
                -0x1_0000_0000 <= bonus <= 0x1_0000_0000,
        ;
        assert(0x1_0000_0000 * n <= 0x1_0000_0000 * 0xFFFF_FFFF_FFFF_FFFF) by (nonlinear_arith)
            requires
                0 <= n <= 0xFFFF_FFFF_FFFF_FFFF,
        ;
        let p = a * (bonus as i128);
        let q: i128 = if p >= 0 {
            p / n
        } else {
            -((-p) / n)
        };
        assert(-0x1_0000_0000 <= q <= 0x1_0000_0000) by (nonlinear_arith)
            requires
                -0x1_0000_0000 * n <= p <= 0x1_0000_0000 * n,
                n >= 1,
                q == trunc_div(p as int, n as int),
        ;
        q as i64
    }

    /// The adjusted score of matching `query` against `text`.
    fn score_text_match(&self, text: &str, query: &str, factor: i64, is_description: bool) -> (r: Option<i64>)
        requires
            self.config.wf(),
            -config_bound() <= factor <= config_bound(),
        ensures
            r == text_score(text@, query@, self.config, is_description, factor as int),
    {
        let query_lower = chars_of(to_lowercase(query).as_str());
        let text_lower = chars_of(to_lowercase(text).as_str());
        let m = fuzzy_match(text, query);
        let (base, indices) = match m {
            Some(p) => p,
            None => return None,
        };
        let mut score: i128 = base as i128;
        if !is_description {
            if chars_eq(&text_lower, &query_lower) {
                score = score + self.config.exact_match_bonus as i128;
            } else if starts_with(&text_lower, &query_lower) {
                score = score + self.config.prefix_match_bonus as i128;
            } else if matches_word_start(text, query) {
                score = score + self.config.word_prefix_bonus as i128;
            }
        }
        let contiguity = self.calculate_contiguity_bonus(&indices);
        score = score + contiguity as i128;
        let s2: i128 = if is_description {
            scale_i64(score, self.config.description_penalty_permille) as i128
        } else {
            score
        };
        Some(scale_i64(s2, factor))
    }

    fn factor_for(&self, item: &ListItem) -> (f: i64)
        requires
            self.config.wf(),
        ensures
            f == item_factor(*item, self.config),
            -config_bound() <= f <= config_bound(),
    {
        match item {
            ListItem::Action(_) => self.config.action_score_multiplier_permille,
            ListItem::Submenu(_) => self.config.submenu_score_multiplier_permille,
            _ => 1000,
        }
    }

    /// The score of an item: its name's match, else its description's.
    fn score_item(&self, item: &ListItem, query: &str) -> (r: Option<i64>)
        requires
            self.config.wf(),
        ensures
            r == item_score(*item, query@, self.config),
    {
        let factor = self.factor_for(item);
        if let Some(score) = self.score_text_match(item.name(), query, factor, false) {
            return Some(score);
        }
        if let Some(desc) = item.description() {
            if let Some(score) = self.score_text_match(desc, query, factor, true) {
                return Some(score);
            }
        }
        None
    }

    /// Filter items by query, returning matching items with their scores.
    ///
    /// An empty query gives every item with score 0, in order. Otherwise the matching
    /// items come sorted by their module's position in `combined_modules`, then by
    /// higher score, ties keeping index order.
    pub fn filter_with_scores(
        &self,
        items: &[ListItem],
        query: &str,
        combined_modules: &Vec<ConfigModule>,
    ) -> (r: Vec<FilteredItem>)
        requires
            self.config.wf(),
        ensures
            filter_result(items@, query@, combined_modules@, self.config, r@),
    {
        if query.is_empty() {
            let mut all: Vec<FilteredItem> = Vec::new();
            let mut i: usize = 0;
            while i < items.len()
                invariant
                    i <= items.len(),
                    all@ == Seq::new(i as nat, |k: int| FilteredItem { index: k as usize, score: 0 }),
                decreases items.len() - i,
            {
                all.push(FilteredItem { index: i, score: 0 });
                i = i + 1;
            }
            return all;
        }
        let mut scored: Vec<FilteredItem> = Vec::new();
        let mut ranks: Vec<usize> = Vec::new();
        let mut i: usize = 0;
        while i < items.len()
            invariant
                i <= items.len(),
                self.config.wf(),
                query@.len() > 0,
                ranked(items@, combined_modules@, scored@),
                ranks.len() == scored.len(),
                forall|k: int|
                    0 <= k < scored.len() ==> (#[trigger] scored@[k]).index < i && ranks@[k]
                        == module_pos(combined_modules@, module_of(items@[scored@[k].index as int])),
                scored@.to_set() == scored_upto(items@, query@, self.config, i as int).to_set(),
            decreases items.len() - i,
        {
            let ghost before = scored@;
            let scored_item = self.score_item(&items[i], query);
            proof {
                broadcast use vstd::seq::Seq::lemma_push_to_set_commute;
                let prev = scored_upto(items@, query@, self.config, i as int);
                if let Some(sc) = scored_item {
                    assert(scored_upto(items@, query@, self.config, i + 1) == prev.push(
                        FilteredItem { index: i, score: sc },
                    ));
                } else {
                    assert(scored_upto(items@, query@, self.config, i + 1) == prev);
                }
            }
            if let Some(score) = scored_item {
                let entry = FilteredItem { index: i, score };
                let pos = module_position(combined_modules, items[i].config_module());
                let mut p: usize = scored.len();
                while p > 0 && (ranks[p - 1] > pos || (ranks[p - 1] == pos && scored[p - 1].score
                    < score))
                    invariant
                        p <= scored.len(),
                        scored@ == before,
                        ranks.len() == scored.len(),
                        forall|k: int|
                            p <= k < scored.len() ==> ranks_before(
                                items@,
                                combined_modules@,
                                entry,
                                #[trigger] scored@[k],
                            ),
                        forall|k: int|
                            0 <= k < scored.len() ==> (#[trigger] scored@[k]).index < i
                                && ranks@[k] == module_pos(
                                combined_modules@,
                                module_of(items@[scored@[k].index as int]),
                            ),
                        pos == module_pos(combined_modules@, module_of(items@[i as int])),
                        entry.index == i,
                        entry.score == score,
                    decreases p,
                {
                    p = p - 1;
                }
                proof {
                    assert forall|k: int| 0 <= k < p implies ranks_before(
                        items@,
                        combined_modules@,
                        #[trigger] scored@[k],
                        entry,
                    ) by {
                        if k < p - 1 {
                            assert(ranks_before(items@, combined_modules@, scored@[k], scored@[p - 1]));
                        }
                    }
                }
                scored.insert(p, entry);
                ranks.insert(p, pos);
                proof {
                    let s = scored@;
                    assert(s == before.insert(p as int, entry));
                    assert forall|a: int, b: int| 0 <= a < b < s.len() implies ranks_before(
                        items@,
                        combined_modules@,
                        #[trigger] s[a],
                        #[trigger] s[b],
                    ) by {
                        if b < p {
                        } else if b == p {
                        } else if a < p {
                            assert(s[b] == before[b - 1]);
                            assert(ranks_before(items@, combined_modules@, before[a], entry));
                            assert(ranks_before(items@, combined_modules@, entry, before[b - 1]));
                        } else if a == p {
                            assert(s[b] == before[b - 1]);
                        } else {
                            assert(s[a] == before[a - 1]);
                            assert(s[b] == before[b - 1]);
                        }
                    }
                    assert(s.to_set() == before.to_set().insert(entry)) by {
                        assert forall|x: FilteredItem| s.to_set().contains(x) <==> before.to_set().insert(
                            entry,
                        ).contains(x) by {
                            if s.to_set().contains(x) {
                                let k = choose|k: int| 0 <= k < s.len() && s[k] == x;
                                if k < p {
                                    assert(before[k] == x);
                                } else if k > p {
                                    assert(before[k - 1] == x);
                                }
                            }
                            if before.to_set().contains(x) {
                                let k = choose|k: int| 0 <= k < before.len() && before[k] == x;
                                if k < p {
                                    assert(s[k] == x);
                                } else {
                                    assert(s[k + 1] == x);
                                }
                            }
                            if x == entry {
                                assert(s[p as int] == x);
                            }
                        }
                    }
                }
            }
            i = i + 1;
        }
        scored
    }

    /// The indices of `filter_with_scores`, in its order.
    pub fn filter_indices(
        &self,
        items: &[ListItem],
        query: &str,
        combined_modules: &Vec<ConfigModule>,
    ) -> (r: Vec<usize>)
        requires
            self.config.wf(),
        ensures
            exists|f: Seq<FilteredItem>|
                #[trigger] filter_result(items@, query@, combined_modules@, self.config, f) && r@
                    == f.map_values(|x: FilteredItem| x.index),
    {
        let f = self.filter_with_scores(items, query, combined_modules);
        let mut r: Vec<usize> = Vec::new();
        let mut i: usize = 0;
        while i < f.len()
            invariant
                i <= f.len(),
                r@ == f@.take(i as int).map_values(|x: FilteredItem| x.index),
            decreases f.len() - i,
        {
            r.push(f[i].index);
            i = i + 1;
            assert(f@.take(i as int).map_values(|x: FilteredItem| x.index) == f@.take(
                i - 1 as int,
            ).map_values(|x: FilteredItem| x.index).push(f@[i - 1].index));
        }
        assert(f@.take(f.len() as int) == f@);
        let ghost fs = f@;
        assert(r@ == fs.map_values(|x: FilteredItem| x.index));
        assert(filter_result(items@, query@, combined_modules@, self.config, fs));
        r
    }
}

impl Default for ItemFilter {
    fn default() -> (f: Self)
        ensures
            f.config.wf(),
            f.config.exact_match_bonus == 100,
            f.config.prefix_match_bonus == 50,
            f.config.word_prefix_bonus == 30,
            f.config.contiguity_bonus == 20,
            f.config.description_penalty_permille == 500,
            f.config.action_score_multiplier_permille == 800,
            f.config.submenu_score_multiplier_permille == 800,
    {
        ItemFilter::new(FuzzyMatchConfig::default_config())
    }
}

proof fn lemma_scored_entries(items: Seq<ListItem>, query: Seq<char>, cfg: FuzzyMatchConfig, n: int)
    requires
        0 <= n <= items.len(),
        items.len() <= usize::MAX,
    ensures
        forall|e: FilteredItem|
            #[trigger] scored_upto(items, query, cfg, n).to_set().contains(e) ==> e.index < n
                && item_score(items[e.index as int], query, cfg) == Some(e.score),
    decreases n,
{
    broadcast use vstd::seq::Seq::lemma_push_to_set_commute;

    if n > 0 {
        lemma_scored_entries(items, query, cfg, n - 1);
        let prev = scored_upto(items, query, cfg, n - 1);
        match item_score(items[n - 1], query, cfg) {
            Some(sc) => {
                assert(scored_upto(items, query, cfg, n) == prev.push(
                    FilteredItem { index: (n - 1) as usize, score: sc },
                ));
            },
            None => {
                assert(scored_upto(items, query, cfg, n) == prev);
            },
        }
    } else {
        assert(scored_upto(items, query, cfg, n).to_set() =~= Set::empty());
    }
}

/// The indices of a filter result point at items, each at most once.
pub proof fn lemma_filter_result_indices(
    items: Seq<ListItem>,
    query: Seq<char>,
    modules: Seq<ConfigModule>,
    cfg: FuzzyMatchConfig,
    r: Seq<FilteredItem>,
)
    requires
        filter_result(items, query, modules, cfg, r),
        items.len() <= usize::MAX,
    ensures
        forall|k: int| 0 <= k < r.len() ==> (#[trigger] r[k]).index < items.len(),
        r.map_values(|x: FilteredItem| x.index).no_duplicates(),
{
    let idx = r.map_values(|x: FilteredItem| x.index);
    if query.len() == 0 {
        assert forall|k: int| 0 <= k < r.len() implies (#[trigger] r[k]).index < items.len() by {}
        assert forall|a: int, b: int| 0 <= a < b < r.len() implies idx[a] != idx[b] by {
            assert(idx[a] == a as usize);
            assert(idx[b] == b as usize);
        }
    } else {
        lemma_scored_entries(items, query, cfg, items.len() as int);
        assert forall|k: int| 0 <= k < r.len() implies (#[trigger] r[k]).index < items.len() by {
            assert(r.to_set().contains(r[k]));
        }
        assert forall|a: int, b: int| 0 <= a < b < r.len() implies idx[a] != idx[b] by {
            assert(r.to_set().contains(r[a]));
            assert(r.to_set().contains(r[b]));
            assert(ranks_before(items, modules, r[a], r[b]));
        }
    }
}

proof fn lemma_scored_has(items: Seq<ListItem>, query: Seq<char>, cfg: FuzzyMatchConfig, n: int, i: int)
    requires
        0 <= i < n <= items.len(),
        n <= usize::MAX + 1,
        item_score(items[i], query, cfg) is Some,
    ensures
        scored_upto(items, query, cfg, n).contains(
            FilteredItem { index: i as usize, score: item_score(items[i], query, cfg)->0 },
        ),
    decreases n,
{
    let prev = scored_upto(items, query, cfg, n - 1);
    let e = FilteredItem { index: i as usize, score: item_score(items[i], query, cfg)->0 };
    if i < n - 1 {
        lemma_scored_has(items, query, cfg, n - 1, i);
        let k = choose|k: int| 0 <= k < prev.len() && prev[k] == e;
        assert(scored_upto(items, query, cfg, n)[k] == e);
    } else {
        assert(scored_upto(items, query, cfg, n) == prev.push(e));
        assert(scored_upto(items, query, cfg, n)[prev.len() as int] == e);
    }
}

/// An item whose name fuzzy-matches a non-empty query with a space in one of three
/// forms is listed by the filter: the query as written, or (when that fails) the query
/// with every space removed, or (when that fails too) with every space turned into a
/// hyphen, so "libre office" finds "LibreOffice Writer".
pub proof fn law_spaced_query_matches(
    items: Seq<ListItem>,
    query: Seq<char>,
    modules: Seq<ConfigModule>,
    cfg: FuzzyMatchConfig,
    r: Seq<FilteredItem>,
    i: int,
)
    requires
        filter_result(items, query, modules, cfg, r),
        items.len() <= usize::MAX,
        0 <= i < items.len(),
        query.len() > 0,
        query.contains(' '),
        skim_indices(name_of(items[i]), query) is Some || skim_indices(
            name_of(items[i]),
            remove_char(query, ' '),
        ) is Some || skim_indices(name_of(items[i]), replace_char(query, ' ', '-')) is Some,
    ensures
        exists|k: int| 0 <= k < r.len() && (#[trigger] r[k]).index == i,
{
    assert(item_score(items[i], query, cfg) is Some);
    lemma_scored_has(items, query, cfg, items.len() as int, i);
    let e = FilteredItem { index: i as usize, score: item_score(items[i], query, cfg)->0 };
    let sc = scored_upto(items, query, cfg, items.len() as int);
    assert(sc.to_set().contains(e));
    assert(r.to_set().contains(e));
    let k = choose|k: int| 0 <= k < r.len() && r[k] == e;
    assert(r[k].index == i);
}

/// A space-free query that does not fuzzy-match an item's name, nor its description,
/// leaves the item out of the filter: no retry applies without a space.
pub proof fn law_unspaced_query_no_retry(
    items: Seq<ListItem>,
    query: Seq<char>,
    modules: Seq<ConfigModule>,
    cfg: FuzzyMatchConfig,
    r: Seq<FilteredItem>,
    i: int,
)
    requires
        filter_result(items, query, modules, cfg, r),
        items.len() <= usize::MAX,
        0 <= i < items.len(),
        query.len() > 0,
        !query.contains(' '),
        skim_indices(name_of(items[i]), query) is None,
        description_of(items[i]) matches Some(d) ==> skim_indices(d, query) is None,
    ensures
        forall|k: int| 0 <= k < r.len() ==> (#[trigger] r[k]).index != i,
{
    lemma_scored_entries(items, query, cfg, items.len() as int);
    assert(item_score(items[i], query, cfg) is None);
    assert forall|k: int| 0 <= k < r.len() implies (#[trigger] r[k]).index != i by {
        assert(r.to_set().contains(r[k]));
    }
}

} // verus!
