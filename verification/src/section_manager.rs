//! Sections of the main item list, and the conversion between global indices and
//! (section, row) positions.
use vstd::prelude::*;

use crate::config::ConfigModule;
use crate::item_filter::FilteredItem;
use crate::items::{module_of, ListItem};

verus! {

/// Section types for organizing items in the list.
#[derive(Clone, Copy, Debug, PartialEq, Eq, Structural)]
pub enum SectionType {
    /// Best match item promoted to the top.
    BestMatch,
    /// Calculator result.
    Calculator,
    /// Open windows.
    Windows,
    /// Submenus and actions.
    Commands,
    /// Desktop applications.
    Applications,
    /// Search providers and AI, together.
    SearchAndAi,
}

/// Display title of a section type.
pub open spec fn title_spec(t: SectionType) -> Seq<char> {
    match t {
        SectionType::BestMatch => "Best Match"@,
        SectionType::Calculator => "Calculator"@,
        SectionType::Windows => "Windows"@,
        SectionType::Commands => "Commands"@,
        SectionType::Applications => "Applications"@,
        SectionType::SearchAndAi => "Search and AI"@,
    }
}

impl SectionType {
    /// The display title for this section.
    pub fn title(&self) -> (s: &'static str)
        ensures
            s@ == title_spec(*self),
    {
        match self {
            SectionType::BestMatch => "Best Match",
            SectionType::Calculator => "Calculator",
            SectionType::Windows => "Windows",
            SectionType::Commands => "Commands",
            SectionType::Applications => "Applications",
            SectionType::SearchAndAi => "Search and AI",
        }
    }
}

/// Section counts of the filtered items, by kind.
#[derive(Clone, Copy, Debug, Default)]
pub struct SectionInfo {
    /// Number of search items.
    pub search_count: usize,
    /// Number of window items.
    pub window_count: usize,
    /// Number of command items (submenus and actions).
    pub command_count: usize,
    /// Number of application items.
    pub app_count: usize,
}

/// Kind code of an item for sectioning: window 0, command 1, application 2, other 3.
pub open spec fn kind_code(item: ListItem) -> int {
    match item {
        ListItem::Window(_) => 0,
        ListItem::Submenu(_) => 1,
        ListItem::Action(_) => 1,
        ListItem::Application(_) => 2,
        _ => 3,
    }
}

/// Number of listed indices that point at an item of kind `k`.
pub open spec fn count_kind(items: Seq<ListItem>, idxs: Seq<usize>, k: int) -> nat
    decreases idxs.len(),
{
    if idxs.len() == 0 {
        0
    } else {
        count_kind(items, idxs.drop_last(), k) + (if idxs.last() < items.len() && kind_code(
            items[idxs.last() as int],
        ) == k {
            1nat
        } else {
            0nat
        })
    }
}

/// No kind is counted more often than there are indices.
pub proof fn lemma_count_kind_bound(items: Seq<ListItem>, idxs: Seq<usize>, k: int)
    ensures
        count_kind(items, idxs, k) <= idxs.len(),
    decreases idxs.len(),
{
    if idxs.len() > 0 {
        lemma_count_kind_bound(items, idxs.drop_last(), k);
    }
}

impl SectionInfo {
    /// Section counts of the items that `filtered_indices` selects.
    pub fn compute(items: &[ListItem], filtered_indices: &[usize]) -> (info: Self)
        ensures
            info.window_count == count_kind(items@, filtered_indices@, 0),
            info.command_count == count_kind(items@, filtered_indices@, 1),
            info.app_count == count_kind(items@, filtered_indices@, 2),
            info.search_count == 0,
    {
        let mut info = SectionInfo { search_count: 0, window_count: 0, command_count: 0, app_count: 0 };
        let mut i: usize = 0;
        while i < filtered_indices.len()
            invariant
                i <= filtered_indices.len(),
                info.window_count == count_kind(items@, filtered_indices@.take(i as int), 0),
                info.command_count == count_kind(items@, filtered_indices@.take(i as int), 1),
                info.app_count == count_kind(items@, filtered_indices@.take(i as int), 2),
                info.search_count == 0,
            decreases filtered_indices.len() - i,
        {
            let idx = filtered_indices[i];
            proof {
                let t = filtered_indices@.take(i + 1);
                assert(t.drop_last() == filtered_indices@.take(i as int));
                lemma_count_kind_bound(items@, filtered_indices@.take(i as int), 0);
                lemma_count_kind_bound(items@, filtered_indices@.take(i as int), 1);
                lemma_count_kind_bound(items@, filtered_indices@.take(i as int), 2);
            }
            if idx < items.len() {
                let item = &items[idx];
                if item.is_window() {
                    info.window_count = info.window_count + 1;
                } else if item.is_submenu() || item.is_action() {
                    info.command_count = info.command_count + 1;
                } else if item.is_application() {
                    info.app_count = info.app_count + 1;
                }
            }
            i = i + 1;
        }
        assert(filtered_indices@.take(filtered_indices.len() as int) == filtered_indices@);
        info
    }
}

/// The section a module's items go to.
pub open spec fn section_of_module(m: ConfigModule) -> SectionType {
    match m {
        ConfigModule::Windows => SectionType::Windows,
        ConfigModule::Applications => SectionType::Applications,
        ConfigModule::Search => SectionType::SearchAndAi,
        ConfigModule::Ai => SectionType::SearchAndAi,
        ConfigModule::Actions => SectionType::Commands,
        ConfigModule::Emojis => SectionType::Commands,
        ConfigModule::Clipboard => SectionType::Commands,
        ConfigModule::Themes => SectionType::Commands,
        ConfigModule::Calculator => SectionType::Calculator,
    }
}

/// Whether a module's section has items to show.
pub open spec fn module_has_items(
    m: ConfigModule,
    info: SectionInfo,
    has_calculator: bool,
    has_search_and_ai: bool,
) -> bool {
    match m {
        ConfigModule::Calculator => has_calculator,
        ConfigModule::Windows => info.window_count > 0,
        ConfigModule::Applications => info.app_count > 0,
        ConfigModule::Search => has_search_and_ai,
        ConfigModule::Ai => has_search_and_ai,
        _ => info.command_count > 0,
    }
}

/// The non-empty sections in the order of the first module of `modules[..n]` that
/// shows each, every section once.
pub open spec fn sections_upto(
    modules: Seq<ConfigModule>,
    info: SectionInfo,
    has_calculator: bool,
    has_search_and_ai: bool,
    n: int,
) -> Seq<SectionType>
    decreases n,
{
    if n <= 0 {
        Seq::empty()
    } else {
        let acc = sections_upto(modules, info, has_calculator, has_search_and_ai, n - 1);
        let m = modules[n - 1];
        if module_has_items(m, info, has_calculator, has_search_and_ai) && !acc.contains(
            section_of_module(m),
        ) {
            acc.push(section_of_module(m))
        } else {
            acc
        }
    }
}

/// `n`, or the largest `usize` when `n` is larger.
pub open spec fn clamp_usize(n: nat) -> nat {
    if n > usize::MAX {
        usize::MAX as nat
    } else {
        n
    }
}

/// Abstract state of a section manager.
pub struct SectionState {
    pub info: SectionInfo,
    pub modules: Seq<ConfigModule>,
    pub has_calculator: bool,
    pub has_ai: bool,
    pub search_count: usize,
    pub show_best_match: bool,
    pub best_match_filtered_pos: Option<usize>,
    pub best_match_original_section: Option<SectionType>,
}

impl SectionState {
    /// Sections in module order, without the best match section.
    pub open spec fn internal(self) -> Seq<SectionType> {
        sections_upto(
            self.modules,
            self.info,
            self.has_calculator,
            self.has_ai || self.search_count > 0,
            self.modules.len() as int,
        )
    }

    /// Sections in display order: the best match section first when one is promoted.
    pub open spec fn ordered(self) -> Seq<SectionType> {
        if self.best_match_filtered_pos is Some {
            seq![SectionType::BestMatch] + self.internal()
        } else {
            self.internal()
        }
    }

    /// Number of items a section type shows.
    pub open spec fn item_count(self, t: SectionType) -> nat {
        let minus_best = |n: nat, s: SectionType|
            if self.best_match_original_section == Some(s) && n > 0 {
                (n - 1) as nat
            } else {
                n
            };
        match t {
            SectionType::BestMatch => if self.best_match_filtered_pos is Some {
                1
            } else {
                0
            },
            SectionType::Calculator => if self.has_calculator {
                1
            } else {
                0
            },
            SectionType::Windows => minus_best(self.info.window_count as nat, SectionType::Windows),
            SectionType::Commands => minus_best(
                self.info.command_count as nat,
                SectionType::Commands,
            ),
            SectionType::Applications => minus_best(
                self.info.app_count as nat,
                SectionType::Applications,
            ),
            SectionType::SearchAndAi => minus_best(
                clamp_usize(
                    (if self.has_ai {
                        1nat
                    } else {
                        0nat
                    }) + self.search_count as nat,
                ),
                SectionType::SearchAndAi,
            ),
        }
    }

    /// Sum of the item counts of the first `k` sections of `ordered`.
    pub open spec fn prefix_total(self, k: int) -> nat
        decreases k,
    {
        if k <= 0 {
            0
        } else {
            self.prefix_total(k - 1) + self.item_count(self.ordered()[k - 1])
        }
    }

    /// Total number of items over all sections.
    pub open spec fn total(self) -> nat {
        self.prefix_total(self.ordered().len() as int)
    }

    /// The (section, row) position of global index `global`, scanning the sections from
    /// the `k`-th on; `section` is the number of the `k`-th section in the display order
    /// (the numbering of `type_at`), and `start` the global index at which it starts.
    pub open spec fn path_from(self, global: int, k: int, section: int, start: int) -> Option<(int, int)>
        decreases self.ordered().len() - k,
    {
        if k < 0 || k >= self.ordered().len() {
            None
        } else {
            let c = self.item_count(self.ordered()[k]) as int;
            if start <= global < start + c {
                Some((section, global - start))
            } else {
                self.path_from(global, k + 1, section + 1, start + c)
            }
        }
    }

    /// The section at position `section` of the display order (applications when past the end).
    pub open spec fn type_at(self, section: int) -> SectionType {
        if 0 <= section < self.ordered().len() {
            self.ordered()[section]
        } else {
            SectionType::Applications
        }
    }

    /// The global index at which section type `t` starts (the total when it is absent).
    pub open spec fn start_of(self, t: SectionType) -> nat {
        if self.ordered().contains(t) {
            self.prefix_total(self.ordered().index_of(t))
        } else {
            self.prefix_total(self.ordered().len() as int)
        }
    }
}

/// Position of the last entry with the highest score among the first `n` entries.
pub open spec fn last_max_pos(f: Seq<FilteredItem>, n: int) -> int
    decreases n,
{
    if n <= 1 {
        0
    } else {
        let p = last_max_pos(f, n - 1);
        if f[n - 1].score >= f[p].score {
            n - 1
        } else {
            p
        }
    }
}

/// Manages section organization and index conversions for the item list.
pub struct SectionManager {
    section_info: SectionInfo,
    combined_modules: Vec<ConfigModule>,
    has_calculator: bool,
    has_ai: bool,
    search_count: usize,
    show_best_match: bool,
    best_match_filtered_pos: Option<usize>,
    best_match_original_section: Option<SectionType>,
}

impl View for SectionManager {
    type V = SectionState;

    closed spec fn view(&self) -> SectionState {
        SectionState {
            info: self.section_info,
            modules: self.combined_modules@,
            has_calculator: self.has_calculator,
            has_ai: self.has_ai,
            search_count: self.search_count,
            show_best_match: self.show_best_match,
            best_match_filtered_pos: self.best_match_filtered_pos,
            best_match_original_section: self.best_match_original_section,
        }
    }
}

/// The promotion that `update_with_scores` decides for a state whose best match is
/// still unset: the position of the last highest-scoring entry and its section, when
/// best matches are shown, the entries are non-empty, that score is not zero, the entry
/// points at an item, some section has items, and the item's section is not the first.
pub open spec fn best_match_of(
    st: SectionState,
    items: Seq<ListItem>,
    filtered: Seq<FilteredItem>,
) -> (Option<usize>, Option<SectionType>) {
    if !st.show_best_match || filtered.len() == 0 {
        (None, None)
    } else {
        let p = last_max_pos(filtered, filtered.len() as int);
        let best = filtered[p];
        if best.score == 0 || best.index >= items.len() || st.internal().len() == 0 {
            (None, None)
        } else {
            let s = section_of_module(module_of(items[best.index as int]));
            if s != st.internal()[0] {
                (Some(p as usize), Some(s))
            } else {
                (None, None)
            }
        }
    }
}

/// The indices that the entries point at.
pub open spec fn indices_of(f: Seq<FilteredItem>) -> Seq<usize> {
    f.map_values(|x: FilteredItem| x.index)
}

fn section_for_module(m: ConfigModule) -> (s: SectionType)
    ensures
        s == section_of_module(m),
{
    match m {
        ConfigModule::Windows => SectionType::Windows,
        ConfigModule::Applications => SectionType::Applications,
        ConfigModule::Search | ConfigModule::Ai => SectionType::SearchAndAi,
        ConfigModule::Actions | ConfigModule::Emojis | ConfigModule::Clipboard
        | ConfigModule::Themes => SectionType::Commands,
        ConfigModule::Calculator => SectionType::Calculator,
    }
}

fn contains_section(v: &Vec<SectionType>, t: SectionType) -> (b: bool)
    ensures
        b == v@.contains(t),
{
    let mut i: usize = 0;
    while i < v.len()
        invariant
            i <= v.len(),
            forall|j: int| 0 <= j < i ==> v@[j] != t,
        decreases v.len() - i,
    {
        if v[i] == t {
            return true;
        }
        i = i + 1;
    }
    false
}

impl SectionManager {
    /// A section manager for the given module order.
    pub fn new(combined_modules: Vec<ConfigModule>, show_best_match: bool) -> (m: Self)
        ensures
            m@.info == (SectionInfo { search_count: 0, window_count: 0, command_count: 0, app_count: 0 }),
            m@.modules == combined_modules@,
            !m@.has_calculator,
            !m@.has_ai,
            m@.search_count == 0,
            m@.show_best_match == show_best_match,
            m@.best_match_filtered_pos is None,
            m@.best_match_original_section is None,
    {
        SectionManager {
            section_info: SectionInfo { search_count: 0, window_count: 0, command_count: 0, app_count: 0 },
            combined_modules,
            has_calculator: false,
            has_ai: false,
            search_count: 0,
            show_best_match,
            best_match_filtered_pos: None,
            best_match_original_section: None,
        }
    }

    /// Update the counts from filtered indices (all scored zero) and the dynamic items.
    pub fn update(
        &mut self,
        items: &[ListItem],
        filtered_indices: &[usize],
        has_calculator: bool,
        has_ai: bool,
        search_count: usize,
    )
        ensures
            final(self)@.modules == old(self)@.modules,
            final(self)@.show_best_match == old(self)@.show_best_match,
            final(self)@.info.window_count == count_kind(items@, filtered_indices@, 0),
            final(self)@.info.command_count == count_kind(items@, filtered_indices@, 1),
            final(self)@.info.app_count == count_kind(items@, filtered_indices@, 2),
            final(self)@.info.search_count == search_count,
            final(self)@.has_calculator == has_calculator,
            final(self)@.has_ai == has_ai,
            final(self)@.search_count == search_count,
            final(self)@.best_match_filtered_pos is None,
            final(self)@.best_match_original_section is None,
    {
        let mut filtered: Vec<FilteredItem> = Vec::new();
        let mut i: usize = 0;
        while i < filtered_indices.len()
            invariant
                i <= filtered_indices.len(),
                filtered.len() == i,
                forall|k: int|
                    0 <= k < i ==> (#[trigger] filtered@[k]).index == filtered_indices@[k]
                        && filtered@[k].score == 0,
            decreases filtered_indices.len() - i,
        {
            filtered.push(FilteredItem { index: filtered_indices[i], score: 0 });
            i = i + 1;
        }
        assert(indices_of(filtered@) == filtered_indices@);
        self.update_with_scores(items, &filtered, has_calculator, has_ai, search_count);
        proof {
            if filtered@.len() > 0 {
                lemma_last_max_in_range(filtered@, filtered@.len() as int);
            }
        }
    }

    /// Update the counts from scored filtered items and the dynamic items, and decide
    /// the best match promotion.
    pub fn update_with_scores(
        &mut self,
        items: &[ListItem],
        filtered: &[FilteredItem],
        has_calculator: bool,
        has_ai: bool,
        search_count: usize,
    )
        ensures
            final(self)@.modules == old(self)@.modules,
            final(self)@.show_best_match == old(self)@.show_best_match,
            final(self)@.info.window_count == count_kind(items@, indices_of(filtered@), 0),
            final(self)@.info.command_count == count_kind(items@, indices_of(filtered@), 1),
            final(self)@.info.app_count == count_kind(items@, indices_of(filtered@), 2),
            final(self)@.info.search_count == search_count,
            final(self)@.has_calculator == has_calculator,
            final(self)@.has_ai == has_ai,
            final(self)@.search_count == search_count,
            (final(self)@.best_match_filtered_pos, final(self)@.best_match_original_section)
                == best_match_of(final(self)@, items@, filtered@),
    {
        let mut indices: Vec<usize> = Vec::new();
        let mut i: usize = 0;
        while i < filtered.len()
            invariant
                i <= filtered.len(),
                indices@ == indices_of(filtered@.take(i as int)),
            decreases filtered.len() - i,
        {
            indices.push(filtered[i].index);
            i = i + 1;
            assert(indices_of(filtered@.take(i as int)) == indices_of(filtered@.take(i - 1 as int)).push(
                filtered@[i - 1].index,
            ));
        }
        assert(filtered@.take(filtered.len() as int) == filtered@);
        let mut info = SectionInfo::compute(items, &indices);
        info.search_count = search_count;
        self.section_info = info;
        self.has_calculator = has_calculator;
        self.has_ai = has_ai;
        self.search_count = search_count;
        self.best_match_filtered_pos = None;
        self.best_match_original_section = None;
        if self.show_best_match && filtered.len() > 0 {
            self.compute_best_match(items, filtered);
        }
    }

    fn compute_best_match(&mut self, items: &[ListItem], filtered: &[FilteredItem])
        requires
            old(self)@.show_best_match,
            filtered.len() > 0,
            old(self)@.best_match_filtered_pos is None,
            old(self)@.best_match_original_section is None,
        ensures
            final(self)@.info == old(self)@.info,
            final(self)@.modules == old(self)@.modules,
            final(self)@.has_calculator == old(self)@.has_calculator,
            final(self)@.has_ai == old(self)@.has_ai,
            final(self)@.search_count == old(self)@.search_count,
            final(self)@.show_best_match == old(self)@.show_best_match,
            (final(self)@.best_match_filtered_pos, final(self)@.best_match_original_section)
                == best_match_of(old(self)@, items@, filtered@),
    {
        let mut best_pos: usize = 0;
        let mut k: usize = 1;
        while k < filtered.len()
            invariant
                1 <= k <= filtered.len(),
                best_pos < k,
                best_pos as int == last_max_pos(filtered@, k as int),
            decreases filtered.len() - k,
        {
            if filtered[k].score >= filtered[best_pos].score {
                best_pos = k;
            }
            k = k + 1;
        }
        proof {
            lemma_last_max_in_range(filtered@, filtered.len() as int);
        }
        let best_item = filtered[best_pos];
        if best_item.score == 0 {
            return;
        }
        if best_item.index >= items.len() {
            return;
        }
        let best_module = items[best_item.index].config_module();
        let internal = self.ordered_section_types_internal();
        if internal.len() == 0 {
            return;
        }
        let first_section = internal[0];
        let best_section = section_for_module(best_module);
        if best_section != first_section {
            self.best_match_filtered_pos = Some(best_pos);
            self.best_match_original_section = Some(best_section);
        }
    }

    /// Whether a best match is promoted.
    pub fn has_best_match(&self) -> (b: bool)
        ensures
            b == (self@.best_match_filtered_pos is Some),
    {
        self.best_match_filtered_pos.is_some()
    }

    /// The filtered position of the promoted best match.
    pub fn best_match_filtered_pos(&self) -> (p: Option<usize>)
        ensures
            p == self@.best_match_filtered_pos,
    {
        self.best_match_filtered_pos
    }

    /// The section the best match was promoted from.
    pub fn best_match_original_section(&self) -> (s: Option<SectionType>)
        ensures
            s == self@.best_match_original_section,
    {
        self.best_match_original_section
    }

    fn ordered_section_types_internal(&self) -> (v: Vec<SectionType>)
        ensures
            v@ == self@.internal(),
    {
        let mut sections: Vec<SectionType> = Vec::new();
        let has_search_and_ai = self.has_ai || self.search_count > 0;
        let mut i: usize = 0;
        while i < self.combined_modules.len()
            invariant
                i <= self.combined_modules.len(),
                has_search_and_ai == (self.has_ai || self.search_count > 0),
                sections@ == sections_upto(
                    self.combined_modules@,
                    self.section_info,
                    self.has_calculator,
                    has_search_and_ai,
                    i as int,
                ),
            decreases self.combined_modules.len() - i,
        {
            let m = self.combined_modules[i];
            let shows = match m {
                ConfigModule::Calculator => self.has_calculator,
                ConfigModule::Windows => self.section_info.window_count > 0,
                ConfigModule::Applications => self.section_info.app_count > 0,
                ConfigModule::Search | ConfigModule::Ai => has_search_and_ai,
                _ => self.section_info.command_count > 0,
            };
            let s = section_for_module(m);
            if shows && !contains_section(&sections, s) {
                sections.push(s);
            }
            i = i + 1;
        }
        sections
    }

    /// The sections in display order: the best match first when one is promoted,
    /// then the non-empty sections in module order.
    pub fn ordered_section_types(&self) -> (v: Vec<SectionType>)
        ensures
            v@ == self@.ordered(),
    {
        let mut sections: Vec<SectionType> = Vec::new();
        if self.has_best_match() {
            sections.push(SectionType::BestMatch);
        }
        let mut rest = self.ordered_section_types_internal();
        sections.append(&mut rest);
        sections
    }

    /// Number of sections.
    pub fn sections_count(&self) -> (n: usize)
        ensures
            n == self@.ordered().len(),
    {
        let mut count: usize = 0;
        if self.has_best_match() {
            count = count + 1;
        }
        let internal = self.ordered_section_types_internal();
        proof {
            lemma_sections_upto_len(
                self@.modules,
                self@.info,
                self@.has_calculator,
                self@.has_ai || self@.search_count > 0,
                self@.modules.len() as int,
            );
        }
        count + internal.len()
    }

    /// The section type at a section index (applications past the end).
    pub fn section_type_at(&self, section: usize) -> (t: SectionType)
        ensures
            t == self@.type_at(section as int),
    {
        let ordered = self.ordered_section_types();
        if section < ordered.len() {
            ordered[section]
        } else {
            SectionType::Applications
        }
    }

    /// The number of items a section type shows.
    pub fn section_item_count(&self, section_type: SectionType) -> (n: usize)
        ensures
            n == self@.item_count(section_type),
    {
        proof {
            lemma_item_count_bounds(self@);
        }
        match section_type {
            SectionType::BestMatch => {
                if self.has_best_match() {
                    1
                } else {
                    0
                }
            },
            SectionType::Calculator => {
                if self.has_calculator {
                    1
                } else {
                    0
                }
            },
            SectionType::Windows => {
                let count = self.section_info.window_count;
                if self.best_match_original_section == Some(SectionType::Windows) {
                    count.saturating_sub(1)
                } else {
                    count
                }
            },
            SectionType::Commands => {
                let count = self.section_info.command_count;
                if self.best_match_original_section == Some(SectionType::Commands) {
                    count.saturating_sub(1)
                } else {
                    count
                }
            },
            SectionType::Applications => {
                let count = self.section_info.app_count;
                if self.best_match_original_section == Some(SectionType::Applications) {
                    count.saturating_sub(1)
                } else {
                    count
                }
            },
            SectionType::SearchAndAi => {
                let ai_count: usize = if self.has_ai {
                    1
                } else {
                    0
                };
                let count = ai_count.saturating_add(self.search_count);
                if self.best_match_original_section == Some(SectionType::SearchAndAi) {
                    count.saturating_sub(1)
                } else {
                    count
                }
            },
        }
    }
}

impl SectionManager {
    /// The global index at which a section type starts: the item count of the sections
    /// before it, or of all sections when it is absent.
    pub fn section_start_index(&self, section_type: SectionType) -> (n: usize)
        requires
            self@.total() <= usize::MAX,
        ensures
            n == self@.start_of(section_type),
    {
        let ordered = self.ordered_section_types();
        let mut offset: usize = 0;
        let mut k: usize = 0;
        proof {
            lemma_prefix_total_mono(self@, ordered@.len() as int);
        }
        while k < ordered.len()
            invariant
                ordered@ == self@.ordered(),
                k <= ordered.len(),
                offset == self@.prefix_total(k as int),
                self@.total() <= usize::MAX,
                forall|j: int| 0 <= j <= ordered@.len() ==> self@.prefix_total(j) <= self@.total(),
                forall|j: int| 0 <= j < k ==> ordered@[j] != section_type,
            decreases ordered.len() - k,
        {
            let st = ordered[k];
            if st == section_type {
                proof {
                    assert(ordered@[k as int] == section_type);
                    assert(ordered@.contains(section_type));
                    let i = ordered@.index_of(section_type);
                    lemma_ordered_unique(self@);
                    assert(ordered@[i] == section_type);
                    assert(i == k as int);
                }
                return offset;
            }
            let c = self.section_item_count(st);
            assert(self@.prefix_total(k + 1) == self@.prefix_total(k as int) + c);
            offset = offset + c;
            k = k + 1;
        }
        offset
    }

    /// The global index of row `row` of section `section`.
    pub fn section_row_to_global(&self, section: usize, row: usize) -> (n: usize)
        requires
            self@.total() + row <= usize::MAX,
        ensures
            n == self@.start_of(self@.type_at(section as int)) + row,
    {
        let section_type = self.section_type_at(section);
        proof {
            lemma_start_of_bound(self@, section_type);
        }
        self.section_start_index(section_type) + row
    }

    /// The (section, row) position of a global index, sections numbered in display order
    /// as `section_type_at` numbers them; `None` past the last item.
    pub fn global_to_index_path(&self, global_idx: usize) -> (p: Option<(usize, usize)>)
        requires
            self@.total() <= usize::MAX,
        ensures
            match self@.path_from(global_idx as int, 0, 0, 0) {
                Some(q) => p == Some((q.0 as usize, q.1 as usize)),
                None => p is None,
            },
    {
        let ordered = self.ordered_section_types();
        let mut current_section: usize = 0;
        let mut current_start: usize = 0;
        let mut k: usize = 0;
        proof {
            lemma_prefix_total_mono(self@, ordered@.len() as int);
        }
        while k < ordered.len()
            invariant
                ordered@ == self@.ordered(),
                k <= ordered.len(),
                current_start == self@.prefix_total(k as int),
                current_section == k,
                self@.total() <= usize::MAX,
                forall|j: int| 0 <= j <= ordered@.len() ==> self@.prefix_total(j) <= self@.total(),
                self@.path_from(global_idx as int, 0, 0, 0) == self@.path_from(
                    global_idx as int,
                    k as int,
                    current_section as int,
                    current_start as int,
                ),
            decreases ordered.len() - k,
        {
            let section_type = ordered[k];
            let section_count = self.section_item_count(section_type);
            assert(self@.prefix_total(k + 1) == self@.prefix_total(k as int) + section_count);
            let section_end = current_start + section_count;
            if global_idx >= current_start && global_idx < section_end {
                return Some((current_section, global_idx - current_start));
            }
            current_section = current_section + 1;
            current_start = section_end;
            k = k + 1;
        }
        None
    }
}

/// Each section appears at most once in the display order.
pub proof fn lemma_ordered_unique(st: SectionState)
    ensures
        st.ordered().no_duplicates(),
{
    lemma_sections_upto_len(
        st.modules,
        st.info,
        st.has_calculator,
        st.has_ai || st.search_count > 0,
        st.modules.len() as int,
    );
    let internal = st.internal();
    if st.best_match_filtered_pos is Some {
        let o = st.ordered();
        assert forall|i: int, j: int| 0 <= i < o.len() && 0 <= j < o.len() && i != j implies o[i]
            != o[j] by {
            if i == 0 {
                assert(o[j] == internal[j - 1]);
                assert(internal.contains(o[j]));
            } else if j == 0 {
                assert(o[i] == internal[i - 1]);
                assert(internal.contains(o[i]));
            } else {
                assert(o[i] == internal[i - 1]);
                assert(o[j] == internal[j - 1]);
            }
        }
    }
}

/// The item counts of the first sections grow with the number of sections taken.
pub proof fn lemma_prefix_total_mono(st: SectionState, n: int)
    requires
        0 <= n,
    ensures
        forall|j: int| 0 <= j <= n ==> st.prefix_total(j) <= st.prefix_total(n),
    decreases n,
{
    if n > 0 {
        lemma_prefix_total_mono(st, n - 1);
    }
}

proof fn lemma_start_of_bound(st: SectionState, t: SectionType)
    ensures
        st.start_of(t) <= st.total(),
{
    lemma_prefix_total_mono(st, st.ordered().len() as int);
    if st.ordered().contains(t) {
        let i = st.ordered().index_of(t);
        assert(0 <= i < st.ordered().len());
    }
}

proof fn lemma_last_max_in_range(f: Seq<FilteredItem>, n: int)
    requires
        1 <= n <= f.len(),
    ensures
        0 <= last_max_pos(f, n) < n,
        forall|j: int| 0 <= j < n ==> (#[trigger] f[j]).score <= f[last_max_pos(f, n)].score,
    decreases n,
{
    if n > 1 {
        lemma_last_max_in_range(f, n - 1);
    }
}

proof fn lemma_sections_upto_len(
    modules: Seq<ConfigModule>,
    info: SectionInfo,
    has_calculator: bool,
    has_search_and_ai: bool,
    n: int,
)
    requires
        n <= modules.len(),
    ensures
        sections_upto(modules, info, has_calculator, has_search_and_ai, n).len() <= 6,
        sections_upto(modules, info, has_calculator, has_search_and_ai, n).no_duplicates(),
        !sections_upto(modules, info, has_calculator, has_search_and_ai, n).contains(
            SectionType::BestMatch,
        ),
    decreases n,
{
    if n > 0 {
        lemma_sections_upto_len(modules, info, has_calculator, has_search_and_ai, n - 1);
        let acc = sections_upto(modules, info, has_calculator, has_search_and_ai, n - 1);
        let s = sections_upto(modules, info, has_calculator, has_search_and_ai, n);
        let all = set![
            SectionType::Calculator,
            SectionType::Windows,
            SectionType::Commands,
            SectionType::Applications,
            SectionType::SearchAndAi,
        ];
        assert forall|x: SectionType| s.contains(x) implies all.contains(x) by {
            let i = choose|i: int| 0 <= i < s.len() && s[i] == x;
            if i < acc.len() {
                assert(acc.contains(x));
            }
        }
        s.unique_seq_to_set();
        assert(s.to_set().subset_of(all));
        vstd::set_lib::lemma_len_subset(s.to_set(), all);
        assert(all.len() == 5) by {
            assert(all == set![SectionType::Calculator].insert(SectionType::Windows).insert(
                SectionType::Commands,
            ).insert(SectionType::Applications).insert(SectionType::SearchAndAi));
        }
    }
}

proof fn lemma_item_count_bounds(st: SectionState)
    ensures
        st.item_count(SectionType::Windows) <= usize::MAX,
        st.item_count(SectionType::Commands) <= usize::MAX,
        st.item_count(SectionType::Applications) <= usize::MAX,
        st.item_count(SectionType::SearchAndAi) <= usize::MAX,
{
}

proof fn lemma_path_exists(st: SectionState, g: int, k: int, sec: int)
    requires
        0 <= k <= st.ordered().len(),
    ensures
        (st.path_from(g, k, sec, st.prefix_total(k) as int) is Some) <==> (st.prefix_total(k) <= g
            < st.total()),
    decreases st.ordered().len() - k,
{
    lemma_prefix_total_mono(st, st.ordered().len() as int);
    if k < st.ordered().len() {
        let c = st.item_count(st.ordered()[k]) as int;
        assert(st.prefix_total(k + 1) == st.prefix_total(k) + c);
        lemma_path_exists(st, g, k + 1, sec + 1);
    }
}

proof fn lemma_path_roundtrip(st: SectionState, g: int, k: int)
    requires
        0 <= k <= st.ordered().len(),
        st.prefix_total(k) <= g < st.total(),
    ensures
        st.path_from(g, k, k, st.prefix_total(k) as int) matches Some(p) && 0 <= p.0 < st.ordered().len()
            && p.1 == g - st.prefix_total(p.0) && 0 <= p.1 && p.1 < st.item_count(st.ordered()[p.0]),
    decreases st.ordered().len() - k,
{
    lemma_prefix_total_mono(st, st.ordered().len() as int);
    if k < st.ordered().len() {
        let c = st.item_count(st.ordered()[k]) as int;
        assert(st.prefix_total(k + 1) == st.prefix_total(k) + c);
        if !(g < st.prefix_total(k) + c) {
            lemma_path_roundtrip(st, g, k + 1);
        }
    }
}

/// A global index below the total number of items has a (section, row) position, and
/// no other index has one.
pub proof fn law_index_path_defined(st: SectionState, g: int)
    requires
        0 <= g,
    ensures
        (st.path_from(g, 0, 0, 0) is Some) <==> g < st.total(),
{
    lemma_path_exists(st, g, 0, 0);
}

/// Turning a global index below the total into its (section, row) position and back
/// gives the index again, and the row lies within the items of that section.
pub proof fn law_index_path_roundtrip(st: SectionState, g: int)
    requires
        0 <= g < st.total(),
    ensures
        st.path_from(g, 0, 0, 0) matches Some(p) && st.start_of(st.type_at(p.0)) + p.1 == g && p.1
            < st.item_count(st.type_at(p.0)),
{
    lemma_path_roundtrip(st, g, 0);
    let p = st.path_from(g, 0, 0, 0)->0;
    let t = st.ordered()[p.0];
    assert(st.type_at(p.0) == t);
    assert(st.ordered().contains(t));
    lemma_ordered_unique(st);
    let i = st.ordered().index_of(t);
    assert(st.ordered()[i] == t);
    assert(i == p.0);
}


/// When every per-kind count is at most `b` and the searches with the AI item fit in
/// `b`, all sections together show at most `7 * b` items.
pub proof fn lemma_total_bound(st: SectionState, b: int)
    requires
        1 <= b,
        st.info.window_count <= b,
        st.info.command_count <= b,
        st.info.app_count <= b,
        st.search_count + 1 <= b,
    ensures
        st.total() <= 7 * b,
{
    lemma_sections_upto_len(
        st.modules,
        st.info,
        st.has_calculator,
        st.has_ai || st.search_count > 0,
        st.modules.len() as int,
    );
    let n = st.ordered().len() as int;
    assert(n <= 7);
    lemma_prefix_bound(st, b, n);
    assert(n * b <= 7 * b) by (nonlinear_arith)
        requires
            n <= 7,
            1 <= b,
    ;
}

proof fn lemma_prefix_bound(st: SectionState, b: int, k: int)
    requires
        1 <= b,
        0 <= k <= st.ordered().len(),
        st.info.window_count <= b,
        st.info.command_count <= b,
        st.info.app_count <= b,
        st.search_count + 1 <= b,
    ensures
        st.prefix_total(k) <= k * b,
    decreases k,
{
    if k > 0 {
        lemma_prefix_bound(st, b, k - 1);
        assert(st.item_count(st.ordered()[k - 1]) <= b);
        assert((k - 1) * b + b == k * b) by (nonlinear_arith);
    }
}


/// Every listed index has one kind code, so the counts of the three kinds add up to at
/// most the number of indices.
pub proof fn lemma_count_kinds_total(items: Seq<ListItem>, idxs: Seq<usize>)
    ensures
        count_kind(items, idxs, 0) + count_kind(items, idxs, 1) + count_kind(items, idxs, 2)
            <= idxs.len(),
    decreases idxs.len(),
{
    if idxs.len() > 0 {
        lemma_count_kinds_total(items, idxs.drop_last());
    }
}

/// The state with no best match promoted.
pub open spec fn without_best(st: SectionState) -> SectionState {
    SectionState { best_match_filtered_pos: None, best_match_original_section: None, ..st }
}

/// Sum of `st`'s item counts over the first `k` section types of `o`.
pub open spec fn sum_counts(st: SectionState, o: Seq<SectionType>, k: int) -> int
    decreases k,
{
    if k <= 0 {
        0
    } else {
        sum_counts(st, o, k - 1) + st.item_count(o[k - 1]) as int
    }
}

proof fn lemma_count_kind_pos(items: Seq<ListItem>, idxs: Seq<usize>, k: int, j: int)
    requires
        0 <= j < idxs.len(),
        idxs[j] < items.len(),
        kind_code(items[idxs[j] as int]) == k,
    ensures
        count_kind(items, idxs, k) >= 1,
    decreases idxs.len(),
{
    if j < idxs.len() - 1 {
        lemma_count_kind_pos(items, idxs.drop_last(), k, j);
    }
}

proof fn lemma_sections_upto_contains(
    modules: Seq<ConfigModule>,
    info: SectionInfo,
    has_calculator: bool,
    has_search_and_ai: bool,
    n: int,
    j: int,
)
    requires
        0 <= j < n <= modules.len(),
        module_has_items(modules[j], info, has_calculator, has_search_and_ai),
    ensures
        sections_upto(modules, info, has_calculator, has_search_and_ai, n).contains(
            section_of_module(modules[j]),
        ),
    decreases n,
{
    let acc = sections_upto(modules, info, has_calculator, has_search_and_ai, n - 1);
    let full = sections_upto(modules, info, has_calculator, has_search_and_ai, n);
    let t = section_of_module(modules[j]);
    if j < n - 1 {
        lemma_sections_upto_contains(modules, info, has_calculator, has_search_and_ai, n - 1, j);
        let i = choose|i: int| 0 <= i < acc.len() && acc[i] == t;
        assert(full[i] == t);
    } else if acc.contains(t) {
        let i = choose|i: int| 0 <= i < acc.len() && acc[i] == t;
        assert(full[i] == t);
    } else {
        assert(full[acc.len() as int] == t);
    }
}

/// Sums over `o` agree between `a` and `b` but for section `s`, where `a` counts one
/// item fewer.
proof fn lemma_sum_counts_minus_one(a: SectionState, b: SectionState, o: Seq<SectionType>, s: SectionType, k: int)
    requires
        0 <= k <= o.len(),
        o.no_duplicates(),
        forall|t: SectionType| t != s ==> a.item_count(t) == b.item_count(t),
        a.item_count(s) + 1 == b.item_count(s),
    ensures
        sum_counts(a, o, k) + (if o.take(k).contains(s) {
            1int
        } else {
            0int
        }) == sum_counts(b, o, k),
    decreases k,
{
    if k > 0 {
        lemma_sum_counts_minus_one(a, b, o, s, k - 1);
        let t = o[k - 1];
        assert(o.take(k) == o.take(k - 1).push(t));
        if t == s {
            assert(!o.take(k - 1).contains(s)) by {
                if o.take(k - 1).contains(s) {
                    let j = choose|j: int| 0 <= j < k - 1 && #[trigger] o.take(k - 1)[j] == s;
                    assert(o[j] == o[k - 1]);
                }
            }
            assert(o.take(k)[k - 1] == s);
        } else {
            assert(o.take(k).contains(s) <==> o.take(k - 1).contains(s)) by {
                if o.take(k).contains(s) {
                    let j = choose|j: int| 0 <= j < k && #[trigger] o.take(k)[j] == s;
                    assert(o.take(k - 1)[j] == s);
                }
                if o.take(k - 1).contains(s) {
                    let j = choose|j: int| 0 <= j < k - 1 && #[trigger] o.take(k - 1)[j] == s;
                    assert(o.take(k)[j] == s);
                }
            }
        }
    } else {
        assert(o.take(0).len() == 0);
    }
}

proof fn lemma_prefix_is_sum(st: SectionState, k: int)
    requires
        0 <= k <= st.ordered().len(),
    ensures
        st.prefix_total(k) == sum_counts(st, st.ordered(), k),
    decreases k,
{
    if k > 0 {
        lemma_prefix_is_sum(st, k - 1);
    }
}

proof fn lemma_sum_counts_shift(st: SectionState, o: Seq<SectionType>, k: int)
    requires
        0 <= k <= o.len(),
    ensures
        sum_counts(st, seq![SectionType::BestMatch] + o, k + 1) == st.item_count(SectionType::BestMatch)
            + sum_counts(st, o, k),
    decreases k,
{
    let full = seq![SectionType::BestMatch] + o;
    if k > 0 {
        lemma_sum_counts_shift(st, o, k - 1);
        assert(full[k] == o[k - 1]);
        assert(sum_counts(st, full, k + 1) == sum_counts(st, full, k) + st.item_count(full[k]));
        assert(sum_counts(st, o, k) == sum_counts(st, o, k - 1) + st.item_count(o[k - 1]));
    } else {
        assert(full[0] == SectionType::BestMatch);
        assert(sum_counts(st, full, 1) == sum_counts(st, full, 0) + st.item_count(full[0]));
        assert(sum_counts(st, o, 0) == 0);
        assert(sum_counts(st, full, 0) == 0);
    }
}

/// Promoting a best match moves one item into the best-match section and takes it out
/// of the section it came from: all sections together show as many items as without the
/// promotion. This holds of every state that an update with scores leaves, when every
/// listed entry names a window, application, action or submenu of an enabled module.
pub proof fn law_best_match_keeps_total(st: SectionState, items: Seq<ListItem>, filtered: Seq<FilteredItem>)
    requires
        st.info.window_count == count_kind(items, indices_of(filtered), 0),
        st.info.command_count == count_kind(items, indices_of(filtered), 1),
        st.info.app_count == count_kind(items, indices_of(filtered), 2),
        (st.best_match_filtered_pos, st.best_match_original_section) == best_match_of(st, items, filtered),
        forall|j: int|
            0 <= j < filtered.len() ==> #[trigger] filtered[j].index < items.len() && kind_code(
                items[filtered[j].index as int],
            ) < 3 && st.modules.contains(module_of(items[filtered[j].index as int])),
    ensures
        st.total() == without_best(st).total(),
{
    let w = without_best(st);
    if st.best_match_filtered_pos is None {
        assert(st == w);
    } else {
        let p = last_max_pos(filtered, filtered.len() as int);
        lemma_last_max_in_range(filtered, filtered.len() as int);
        let idx = filtered[p].index;
        let item = items[idx as int];
        let m = module_of(item);
        let s = section_of_module(m);
        assert(st.best_match_original_section == Some(s));
        let idxs = indices_of(filtered);
        assert(idxs[p] == idx);
        lemma_count_kind_pos(items, idxs, kind_code(item), p);
        let hs = st.has_ai || st.search_count > 0;
        assert(module_has_items(m, st.info, st.has_calculator, hs));
        let j = choose|j: int| 0 <= j < st.modules.len() && st.modules[j] == m;
        lemma_sections_upto_contains(st.modules, st.info, st.has_calculator, hs, st.modules.len() as int, j);
        let inner = st.internal();
        assert(w.internal() == inner);
        assert(inner.contains(s));
        lemma_ordered_unique(w);
        assert(w.ordered() == inner);
        assert(st.ordered() == seq![SectionType::BestMatch] + inner);
        assert(w.item_count(s) >= 1);
        let n = inner.len() as int;
        lemma_prefix_is_sum(st, n + 1);
        lemma_prefix_is_sum(w, n);
        lemma_sum_counts_shift(st, inner, n);
        let st0 = SectionState { best_match_filtered_pos: None, ..st };
        assert forall|t: SectionType| t != s implies st0.item_count(t) == w.item_count(t) by {}
        assert(st0.item_count(s) + 1 == w.item_count(s));
        lemma_sum_counts_minus_one(st0, w, inner, s, n);
        assert(inner.take(n) == inner);
        lemma_sections_upto_len(st.modules, st.info, st.has_calculator, hs, st.modules.len() as int);
        assert forall|i: int| 0 <= i < inner.len() implies st.item_count(#[trigger] inner[i])
            == st0.item_count(inner[i]) by {
            assert(inner.contains(inner[i]));
        }
        lemma_sum_counts_same(st, st0, inner, n);
    }
}

proof fn lemma_sum_counts_same(a: SectionState, b: SectionState, o: Seq<SectionType>, k: int)
    requires
        0 <= k <= o.len(),
        forall|i: int| 0 <= i < o.len() ==> a.item_count(#[trigger] o[i]) == b.item_count(o[i]),
    ensures
        sum_counts(a, o, k) == sum_counts(b, o, k),
    decreases k,
{
    if k > 0 {
        lemma_sum_counts_same(a, b, o, k - 1);
    }
}

/// Windows and applications have sections of their own; web search and AI share one;
/// actions, emojis, clipboard and themes all go to the commands section; the calculator
/// has its own.
pub proof fn law_module_sections(m: ConfigModule)
    ensures
        m == ConfigModule::Windows ==> section_of_module(m) == SectionType::Windows,
        m == ConfigModule::Applications ==> section_of_module(m) == SectionType::Applications,
        m == ConfigModule::Search || m == ConfigModule::Ai ==> section_of_module(m)
            == SectionType::SearchAndAi,
        m == ConfigModule::Actions || m == ConfigModule::Emojis || m == ConfigModule::Clipboard
            || m == ConfigModule::Themes ==> section_of_module(m) == SectionType::Commands,
        m == ConfigModule::Calculator ==> section_of_module(m) == SectionType::Calculator,
        section_of_module(m) != SectionType::BestMatch,
{
}

} // verus!
