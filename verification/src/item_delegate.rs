//! The delegate of the main item list: base items, dynamic items (calculator, AI,
//! search) and sections.
use vstd::prelude::*;

use crate::base_delegate::{
    all_indices, first_selection, index_range, lemma_distinct_below, step_down, step_up, BaseDelegate,
    BaseState,
};
use crate::config::{ConfigModule, FuzzyMatchConfig};
use crate::dynamic_items::{lemma_processed_search_bound, processed, DynamicItems};
use crate::item_filter::{filter_result, lemma_filter_result_indices, module_pos, FilteredItem, ItemFilter};
use crate::items::{
    builtin_description, builtin_name, module_of, priority_of, ActionItem, ActionKind,
    CalculatorItem, ListItem, SubmenuItem, SubmenuLayout,
};
use crate::search::SearchProvider;
use crate::section_manager::{
    count_kind, lemma_count_kind_bound, lemma_count_kinds_total, lemma_ordered_unique,
    lemma_prefix_total_mono, lemma_total_bound, title_spec,
    SectionManager, SectionState, SectionType,
};

verus! {

/// Bound on the number of items and of search providers that the delegate handles: a
/// sixteenth of the address space, so that the counts of all sections, each at most the
/// number of items and providers plus a few dynamic entries, add up within `usize`.
pub open spec fn size_limit() -> int {
    usize::MAX as int / 16
}

/// Whether the delegate keeps an input item for the given modules: applications only
/// with the applications module, windows only with the windows module, all others.
pub open spec fn keeps(item: ListItem, modules: Seq<ConfigModule>) -> bool {
    match item {
        ListItem::Application(_) => modules.contains(ConfigModule::Applications),
        ListItem::Window(_) => modules.contains(ConfigModule::Windows),
        _ => true,
    }
}

/// The input items that the delegate keeps, in order.
pub open spec fn retained(items: Seq<ListItem>, modules: Seq<ConfigModule>) -> Seq<ListItem>
    decreases items.len(),
{
    if items.len() == 0 {
        items
    } else {
        let r = retained(items.drop_last(), modules);
        if keeps(items.last(), modules) {
            r.push(items.last())
        } else {
            r
        }
    }
}

/// `item` is the submenu with these fields.
pub open spec fn submenu_ok(
    item: ListItem,
    id: Seq<char>,
    name: Seq<char>,
    desc: Seq<char>,
    icon: Seq<char>,
    layout: SubmenuLayout,
) -> bool {
    &&& item matches ListItem::Submenu(s)
    &&& item->Submenu_0.id@ == id
    &&& item->Submenu_0.name@ == name
    &&& item->Submenu_0.description matches Some(d) && d@ == desc
    &&& item->Submenu_0.icon matches Some(i) && i@ == icon
    &&& item->Submenu_0.layout == layout
}

/// `item` is the built-in action of kind `kind`.
pub open spec fn action_ok(item: ListItem, kind: ActionKind) -> bool {
    &&& item matches ListItem::Action(a)
    &&& item->Action_0.kind == kind
    &&& item->Action_0.name@ == builtin_name(kind)
    &&& item->Action_0.description matches Some(d) && d@ == builtin_description(kind)
}

/// 1 when `b` holds, else 0.
pub open spec fn flag(b: bool) -> int {
    if b {
        1
    } else {
        0
    }
}

/// The built-in entries for the modules: the emoji, clipboard and theme submenus, then
/// the five system actions, each when its module is enabled.
pub open spec fn builtin_entries_ok(modules: Seq<ConfigModule>, extras: Seq<ListItem>) -> bool {
    let e = modules.contains(ConfigModule::Emojis);
    let c = modules.contains(ConfigModule::Clipboard);
    let t = modules.contains(ConfigModule::Themes);
    let a = modules.contains(ConfigModule::Actions);
    let ac = flag(e) + flag(c) + flag(t);
    &&& extras.len() == ac + (if a {
        5int
    } else {
        0
    })
    &&& e ==> submenu_ok(
        extras[0],
        "submenu-emojis"@,
        "Emojis"@,
        "Search and copy emojis"@,
        "smiley"@,
        SubmenuLayout::Grid(8),
    )
    &&& c ==> submenu_ok(
        extras[flag(e)],
        "submenu-clipboard"@,
        "Clipboard History"@,
        "View and paste clipboard history"@,
        "clipboard"@,
        SubmenuLayout::List,
    )
    &&& t ==> submenu_ok(
        extras[flag(e) + flag(c)],
        "submenu-themes"@,
        "Themes"@,
        "Browse and apply themes"@,
        "palette"@,
        SubmenuLayout::List,
    )
    &&& a ==> {
        &&& action_ok(extras[ac], ActionKind::Shutdown)
        &&& action_ok(extras[ac + 1], ActionKind::Reboot)
        &&& action_ok(extras[ac + 2], ActionKind::Suspend)
        &&& action_ok(extras[ac + 3], ActionKind::Logout)
        &&& action_ok(extras[ac + 4], ActionKind::Lock)
    }
}

/// Order of the delegate's items: module position, then kind priority, then input order.
pub open spec fn item_before(p: Seq<ListItem>, modules: Seq<ConfigModule>, a: usize, b: usize) -> bool {
    let pa = module_pos(modules, module_of(p[a as int]));
    let pb = module_pos(modules, module_of(p[b as int]));
    ||| pa < pb
    ||| pa == pb && priority_of(p[a as int]) < priority_of(p[b as int])
    ||| pa == pb && priority_of(p[a as int]) == priority_of(p[b as int]) && a < b
}

/// `perm` lists every position of `p` once, in `item_before` order.
pub open spec fn sorted_perm(p: Seq<ListItem>, modules: Seq<ConfigModule>, perm: Seq<usize>) -> bool {
    &&& perm.len() == p.len()
    &&& perm.no_duplicates()
    &&& forall|k: int| 0 <= k < perm.len() ==> #[trigger] perm[k] < p.len()
    &&& forall|i: int, j: int|
        0 <= i < j < perm.len() ==> item_before(p, modules, #[trigger] perm[i], #[trigger] perm[j])
}

/// The base item at visible position `i`, if any.
pub open spec fn base_item(base: BaseState<ListItem>, i: int) -> Option<ListItem> {
    if 0 <= i < base.filtered.len() && base.filtered[i] < base.items.len() {
        Some(base.items[base.filtered[i] as int])
    } else {
        None
    }
}

/// Number of entries that the scan for a global index finds in a section of type `t`:
/// its items, but none in the calculator's section, whose entry sits at index 0.
pub open spec fn scan_count(st: SectionState, t: SectionType) -> int {
    if t == SectionType::Calculator {
        0
    } else {
        st.item_count(t) as int
    }
}

/// Sum of `scan_count` over the first `k` sections of the display order.
pub open spec fn scan_prefix(st: SectionState, k: int) -> int
    decreases k,
{
    if k <= 0 {
        0
    } else {
        scan_prefix(st, k - 1) + scan_count(st, st.ordered()[k - 1])
    }
}

/// Number of entries that the main list reaches by index: the calculator result, if
/// any, and the entries of the other sections.
pub open spec fn entry_count(st: SectionState, dy: DynamicItems) -> int {
    flag(dy.calculator_item is Some) + scan_prefix(st, st.ordered().len() as int)
}

/// The item at global index `g`, scanning the sections from the `k`-th on, where that
/// section starts at `start` and `regular` base items precede it.
pub open spec fn lookup(
    st: SectionState,
    base: BaseState<ListItem>,
    dy: DynamicItems,
    g: int,
    k: int,
    start: int,
    regular: int,
) -> Option<ListItem>
    decreases st.ordered().len() - k,
{
    if k < 0 || k >= st.ordered().len() {
        None
    } else {
        let t = st.ordered()[k];
        let c = scan_count(st, t);
        if start <= g < start + c {
            let row = g - start;
            match t {
                SectionType::Calculator => None,
                SectionType::Windows => base_item(base, regular + row),
                SectionType::Commands => base_item(base, regular + row),
                SectionType::Applications => base_item(base, regular + row),
                SectionType::SearchAndAi => if row == 0 && dy.ai_item is Some {
                    Some(ListItem::Ai(dy.ai_item->0))
                } else {
                    let si = row - flag(dy.ai_item is Some);
                    if 0 <= si < dy.search_items@.len() {
                        Some(ListItem::Search(dy.search_items@[si]))
                    } else {
                        None
                    }
                },
                SectionType::BestMatch => None,
            }
        } else {
            let next_regular = match t {
                SectionType::Windows => regular + c,
                SectionType::Commands => regular + c,
                SectionType::Applications => regular + c,
                _ => regular,
            };
            lookup(st, base, dy, g, k + 1, start + c, next_regular)
        }
    }
}

/// The item at global index `g`: the calculator result at 0 when there is one, else
/// the item that the section scan finds, the scan starting after the calculator and
/// passing over the calculator's own section.
pub open spec fn item_at(st: SectionState, base: BaseState<ListItem>, dy: DynamicItems, g: int) -> Option<
    ListItem,
> {
    if g == 0 && dy.calculator_item is Some {
        Some(ListItem::Calculator(dy.calculator_item->0))
    } else {
        lookup(st, base, dy, g, 0, flag(dy.calculator_item is Some), 0)
    }
}

/// The title shown above section `section`: none when there is at most one section,
/// nor above a search section when no other kind of section is shown.
pub open spec fn header_of(st: SectionState, section: int) -> Option<Seq<char>> {
    let t = st.type_at(section);
    let o = st.ordered();
    if o.len() <= 1 {
        None
    } else if t == SectionType::SearchAndAi && !(exists|i: int|
        0 <= i < o.len() && #[trigger] o[i] != SectionType::SearchAndAi) {
        None
    } else {
        Some(title_spec(t))
    }
}

/// Selection after a new filtering: the first entry when any is visible.
pub open spec fn reset_selection(count: int) -> Option<usize> {
    if count > 0 {
        Some(0usize)
    } else {
        None
    }
}

/// Window, command and application sections show base items.
pub open spec fn is_regular(t: SectionType) -> bool {
    t == SectionType::Windows || t == SectionType::Commands || t == SectionType::Applications
}

/// Number of base items that the first `k` sections of the display order show.
pub open spec fn regular_prefix(st: SectionState, k: int) -> int
    decreases k,
{
    if k <= 0 {
        0
    } else {
        regular_prefix(st, k - 1) + (if is_regular(st.ordered()[k - 1]) {
            st.item_count(st.ordered()[k - 1]) as int
        } else {
            0
        })
    }
}

/// 1 when the first `k` sections include `t`, else 0.
spec fn shown(st: SectionState, t: SectionType, k: int) -> int {
    if st.ordered().take(k).contains(t) {
        1
    } else {
        0
    }
}

proof fn lemma_regular_prefix(st: SectionState, k: int)
    requires
        0 <= k <= st.ordered().len(),
        st.ordered().no_duplicates(),
        st.best_match_original_section is None,
    ensures
        regular_prefix(st, k) == shown(st, SectionType::Windows, k) * st.info.window_count + shown(
            st,
            SectionType::Commands,
            k,
        ) * st.info.command_count + shown(st, SectionType::Applications, k) * st.info.app_count,
        0 <= regular_prefix(st, k),
        forall|j: int| 0 <= j <= k ==> regular_prefix(st, j) <= regular_prefix(st, k),
    decreases k,
{
    let o = st.ordered();
    if k > 0 {
        lemma_regular_prefix(st, k - 1);
        let t = o[k - 1];
        assert(o.take(k) == o.take(k - 1).push(t));
        assert(!o.take(k - 1).contains(t)) by {
            if o.take(k - 1).contains(t) {
                let j = choose|j: int| 0 <= j < k - 1 && #[trigger] o.take(k - 1)[j] == t;
                assert(o[j] == o[k - 1]);
            }
        }
        assert forall|x: SectionType| x != t implies (o.take(k).contains(x) <==> o.take(
            k - 1,
        ).contains(x)) by {
            if o.take(k).contains(x) {
                let j = choose|j: int| 0 <= j < k && #[trigger] o.take(k)[j] == x;
                assert(o.take(k - 1)[j] == x);
            }
            if o.take(k - 1).contains(x) {
                let j = choose|j: int| 0 <= j < k - 1 && #[trigger] o.take(k - 1)[j] == x;
                assert(o.take(k)[j] == x);
            }
        }
        assert(o.take(k).contains(t)) by {
            assert(o.take(k)[k - 1] == t);
        }
    } else {
        assert(st.ordered().take(0).len() == 0);
    }
}

proof fn lemma_scan_prefix(st: SectionState, k: int)
    requires
        0 <= k <= st.ordered().len(),
    ensures
        0 <= scan_prefix(st, k) <= st.prefix_total(k),
        forall|j: int| 0 <= j <= k ==> scan_prefix(st, j) <= scan_prefix(st, k),
    decreases k,
{
    if k > 0 {
        lemma_scan_prefix(st, k - 1);
    }
}

/// With the calculator's section among the first `k` sections, the scan counts one
/// entry fewer than the sections show; without it, as many.
proof fn lemma_scan_prefix_total(st: SectionState, k: int)
    requires
        0 <= k <= st.ordered().len(),
        st.ordered().no_duplicates(),
    ensures
        scan_prefix(st, k) + shown(st, SectionType::Calculator, k) * st.item_count(
            SectionType::Calculator,
        ) == st.prefix_total(k),
    decreases k,
{
    let o = st.ordered();
    if k > 0 {
        lemma_scan_prefix_total(st, k - 1);
        let t = o[k - 1];
        assert(o.take(k) == o.take(k - 1).push(t));
        assert(!o.take(k - 1).contains(t)) by {
            if o.take(k - 1).contains(t) {
                let j = choose|j: int| 0 <= j < k - 1 && #[trigger] o.take(k - 1)[j] == t;
                assert(o[j] == o[k - 1]);
            }
        }
        if t != SectionType::Calculator {
            assert(o.take(k).contains(SectionType::Calculator) <==> o.take(k - 1).contains(
                SectionType::Calculator,
            )) by {
                if o.take(k).contains(SectionType::Calculator) {
                    let j = choose|j: int|
                        0 <= j < k && #[trigger] o.take(k)[j] == SectionType::Calculator;
                    assert(o.take(k - 1)[j] == SectionType::Calculator);
                }
                if o.take(k - 1).contains(SectionType::Calculator) {
                    let j = choose|j: int|
                        0 <= j < k - 1 && #[trigger] o.take(k - 1)[j] == SectionType::Calculator;
                    assert(o.take(k)[j] == SectionType::Calculator);
                }
            }
        } else {
            assert(o.take(k)[k - 1] == t);
        }
    } else {
        assert(o.take(0).len() == 0);
    }
}

proof fn lemma_lookup(
    st: SectionState,
    base: BaseState<ListItem>,
    dy: DynamicItems,
    g: int,
    k: int,
    off: int,
)
    requires
        ItemListDelegate::sections_agree(st, base, dy),
        forall|i: int| 0 <= i < base.filtered.len() ==> #[trigger] base.filtered[i] < base.items.len(),
        forall|i: int| 0 <= i < base.items.len() ==> !(#[trigger] base.items[i] is Calculator),
        regular_prefix(st, st.ordered().len() as int) <= base.filtered.len(),
        st.ordered().no_duplicates(),
        0 <= k <= st.ordered().len(),
    ensures
        (lookup(st, base, dy, g, k, off + scan_prefix(st, k), regular_prefix(st, k)) is Some) <==> (
        off + scan_prefix(st, k) <= g < off + scan_prefix(st, st.ordered().len() as int)),
        !(lookup(st, base, dy, g, k, off + scan_prefix(st, k), regular_prefix(st, k)) matches Some(
            ListItem::Calculator(_),
        )),
    decreases st.ordered().len() - k,
{
    lemma_scan_prefix(st, st.ordered().len() as int);
    lemma_regular_prefix(st, st.ordered().len() as int);
    if k < st.ordered().len() {
        let t = st.ordered()[k];
        let c = scan_count(st, t);
        let start = off + scan_prefix(st, k);
        let regular = regular_prefix(st, k);
        lemma_regular_prefix(st, k);
        assert(scan_prefix(st, k + 1) == scan_prefix(st, k) + c);
        assert(regular_prefix(st, k + 1) == regular + (if is_regular(t) {
            st.item_count(t) as int
        } else {
            0
        }));
        lemma_lookup(st, base, dy, g, k + 1, off);
        if start <= g < start + c {
            let row = g - start;
            match t {
                SectionType::Calculator => {
                    assert(c == 0);
                },
                SectionType::BestMatch => {
                    assert(c == 0);
                },
                SectionType::SearchAndAi => {
                    assert(c <= flag(dy.ai_item is Some) + dy.search_items@.len());
                    assert(lookup(st, base, dy, g, k, start, regular) is Some);
                },
                _ => {
                    assert(is_regular(t));
                    assert(regular + row < base.filtered.len());
                    assert(base.filtered[regular + row] < base.items.len());
                    assert(base_item(base, regular + row) is Some);
                    assert(lookup(st, base, dy, g, k, start, regular) == base_item(base, regular + row));
                    assert(!(base.items[base.filtered[regular + row] as int] is Calculator));
                },
            }
        } else {
            assert(lookup(st, base, dy, g, k, start, regular) == lookup(
                st,
                base,
                dy,
                g,
                k + 1,
                start + c,
                regular_prefix(st, k + 1),
            ));
        }
    }
}

/// Every entry of the main list is reached by exactly one index. The calculator result,
/// when there is one, is the entry at index 0 and at no other; the other entries come
/// from the other sections in display order; there are entries exactly below
/// `entry_count`, which is the sections' total whenever the calculator's section is
/// shown or there is no calculator result. (The stored items are launcher items,
/// never calculator results.)
pub proof fn law_entries_once(st: SectionState, base: BaseState<ListItem>, dy: DynamicItems, g: int)
    requires
        ItemListDelegate::sections_agree(st, base, dy),
        forall|i: int| 0 <= i < base.filtered.len() ==> #[trigger] base.filtered[i] < base.items.len(),
        forall|i: int| 0 <= i < base.items.len() ==> !(#[trigger] base.items[i] is Calculator),
        0 <= g,
    ensures
        (item_at(st, base, dy, g) is Some) <==> g < entry_count(st, dy),
        dy.calculator_item matches Some(c) ==> ((item_at(st, base, dy, g) == Some(
            ListItem::Calculator(c),
        )) <==> g == 0),
        dy.calculator_item is None || st.ordered().contains(SectionType::Calculator) ==> entry_count(
            st,
            dy,
        ) == st.total(),
{
    lemma_ordered_unique(st);
    lemma_regular_prefix(st, st.ordered().len() as int);
    lemma_count_kinds_total(base.items, base.filtered);
    let off = flag(dy.calculator_item is Some);
    lemma_lookup(st, base, dy, g, 0, off);
    assert(scan_prefix(st, 0) == 0);
    assert(regular_prefix(st, 0) == 0);
    lemma_scan_prefix(st, st.ordered().len() as int);
    let n = st.ordered().len() as int;
    lemma_scan_prefix_total(st, n);
    assert(st.ordered().take(n) == st.ordered());
}

/// Enhanced delegate for the main item list.
pub struct ItemListDelegate {
    base: BaseDelegate<ListItem>,
    filter: ItemFilter,
    dynamic: DynamicItems,
    sections: SectionManager,
    combined_modules: Vec<ConfigModule>,
    ai_configured: bool,
    providers: Vec<SearchProvider>,
}

fn has_module(modules: &Vec<ConfigModule>, m: ConfigModule) -> (b: bool)
    ensures
        b == modules@.contains(m),
{
    let mut i: usize = 0;
    while i < modules.len()
        invariant
            i <= modules.len(),
            forall|j: int| 0 <= j < i ==> modules@[j] != m,
        decreases modules.len() - i,
    {
        if modules[i] == m {
            return true;
        }
        i = i + 1;
    }
    false
}

/// The built-in entries for the modules.
pub fn builtin_entries(modules: &Vec<ConfigModule>) -> (v: Vec<ListItem>)
    ensures
        builtin_entries_ok(modules@, v@),
{
    let mut v: Vec<ListItem> = Vec::new();
    if has_module(modules, ConfigModule::Emojis) {
        v.push(
            ListItem::Submenu(
                SubmenuItem::grid("submenu-emojis", "Emojis", 8).with_description(
                    "Search and copy emojis",
                ).with_icon("smiley"),
            ),
        );
    }
    if has_module(modules, ConfigModule::Clipboard) {
        v.push(
            ListItem::Submenu(
                SubmenuItem::list("submenu-clipboard", "Clipboard History").with_description(
                    "View and paste clipboard history",
                ).with_icon("clipboard"),
            ),
        );
    }
    if has_module(modules, ConfigModule::Themes) {
        v.push(
            ListItem::Submenu(
                SubmenuItem::list("submenu-themes", "Themes").with_description(
                    "Browse and apply themes",
                ).with_icon("palette"),
            ),
        );
    }
    proof {
        let e = modules@.contains(ConfigModule::Emojis);
        let c = modules@.contains(ConfigModule::Clipboard);
        let t = modules@.contains(ConfigModule::Themes);
        if e {
            assert(submenu_ok(v@[0], "submenu-emojis"@, "Emojis"@, "Search and copy emojis"@, "smiley"@, SubmenuLayout::Grid(8)));
        }
        if c {
            assert(submenu_ok(v@[flag(e)], "submenu-clipboard"@, "Clipboard History"@, "View and paste clipboard history"@, "clipboard"@, SubmenuLayout::List));
        }
        if t {
            assert(submenu_ok(v@[flag(e) + flag(c)], "submenu-themes"@, "Themes"@, "Browse and apply themes"@, "palette"@, SubmenuLayout::List));
        }
    }
    if has_module(modules, ConfigModule::Actions) {
        let actions = ActionItem::builtins();
        let ghost before = v@;
        let mut i: usize = 0;
        while i < actions.len()
            invariant
                i <= actions.len() == 5,
                v@.len() == before.len() + i,
                forall|k: int| 0 <= k < before.len() ==> v@[k] == before[k],
                forall|k: int|
                    0 <= k < i ==> v@[before.len() + k] == ListItem::Action(#[trigger] actions@[k]),
            decreases actions.len() - i,
        {
            v.push(ListItem::Action(actions[i].clone()));
            i = i + 1;
        }
        assert(action_ok(v@[before.len() as int], ActionKind::Shutdown));
        assert(action_ok(v@[before.len() as int + 1], ActionKind::Reboot));
        assert(action_ok(v@[before.len() as int + 2], ActionKind::Suspend));
        assert(action_ok(v@[before.len() as int + 3], ActionKind::Logout));
        assert(action_ok(v@[before.len() as int + 4], ActionKind::Lock));
    }
    v
}

fn concat_items(a: &Vec<ListItem>, b: &Vec<ListItem>) -> (r: Vec<ListItem>)
    ensures
        r@ == a@ + b@,
{
    let mut r: Vec<ListItem> = Vec::new();
    let mut i: usize = 0;
    while i < a.len()
        invariant
            i <= a.len(),
            r@ == a@.take(i as int),
        decreases a.len() - i,
    {
        r.push(a[i].clone());
        i = i + 1;
        assert(a@.take(i as int) == a@.take(i - 1 as int).push(a@[i - 1]));
    }
    assert(a@.take(a.len() as int) == a@);
    let mut j: usize = 0;
    while j < b.len()
        invariant
            j <= b.len(),
            r@ == a@ + b@.take(j as int),
        decreases b.len() - j,
    {
        r.push(b[j].clone());
        j = j + 1;
        assert(b@.take(j as int) == b@.take(j - 1 as int).push(b@[j - 1]));
        assert(a@ + b@.take(j as int) == (a@ + b@.take(j - 1 as int)).push(b@[j - 1]));
    }
    assert(b@.take(b.len() as int) == b@);
    r
}

fn retain_items(items: Vec<ListItem>, modules: &Vec<ConfigModule>) -> (v: Vec<ListItem>)
    ensures
        v@ == retained(items@, modules@),
{
    let keep_apps = has_module(modules, ConfigModule::Applications);
    let keep_windows = has_module(modules, ConfigModule::Windows);
    let mut v: Vec<ListItem> = Vec::new();
    let mut i: usize = 0;
    while i < items.len()
        invariant
            i <= items.len(),
            keep_apps == modules@.contains(ConfigModule::Applications),
            keep_windows == modules@.contains(ConfigModule::Windows),
            v@ == retained(items@.take(i as int), modules@),
        decreases items.len() - i,
    {
        assert(items@.take(i + 1).drop_last() == items@.take(i as int));
        let keep = match &items[i] {
            ListItem::Application(_) => keep_apps,
            ListItem::Window(_) => keep_windows,
            _ => true,
        };
        if keep {
            v.push(items[i].clone());
        }
        i = i + 1;
    }
    assert(items@.take(items.len() as int) == items@);
    v
}

fn item_key_before(
    p: &Vec<ListItem>,
    ranks: &Vec<usize>,
    prios: &Vec<u8>,
    a: usize,
    b: usize,
) -> (r: bool)
    requires
        a < p.len(),
        b < p.len(),
        ranks.len() == p.len(),
        prios.len() == p.len(),
    ensures
        r == (ranks@[a as int] < ranks@[b as int] || (ranks@[a as int] == ranks@[b as int]
            && prios@[a as int] < prios@[b as int]) || (ranks@[a as int] == ranks@[b as int]
            && prios@[a as int] == prios@[b as int] && a < b)),
{
    ranks[a] < ranks[b] || (ranks[a] == ranks[b] && prios[a] < prios[b]) || (ranks[a] == ranks[b]
        && prios[a] == prios[b] && a < b)
}

/// The positions of `p` in `item_before` order (a stable sort by module and priority).
fn sort_order(p: &Vec<ListItem>, modules: &Vec<ConfigModule>) -> (perm: Vec<usize>)
    ensures
        sorted_perm(p@, modules@, perm@),
{
    let mut ranks: Vec<usize> = Vec::new();
    let mut prios: Vec<u8> = Vec::new();
    let mut i: usize = 0;
    while i < p.len()
        invariant
            i <= p.len(),
            ranks.len() == i,
            prios.len() == i,
            forall|k: int| 0 <= k < i ==> #[trigger] ranks@[k] == module_pos(modules@, module_of(p@[k])),
            forall|k: int| 0 <= k < i ==> #[trigger] prios@[k] == priority_of(p@[k]),
        decreases p.len() - i,
    {
        ranks.push(crate::item_filter::module_position(modules, p[i].config_module()));
        prios.push(p[i].sort_priority());
        i = i + 1;
    }
    let mut perm: Vec<usize> = Vec::new();
    let mut i: usize = 0;
    while i < p.len()
        invariant
            i <= p.len(),
            ranks.len() == p.len(),
            prios.len() == p.len(),
            forall|k: int|
                0 <= k < p.len() ==> #[trigger] ranks@[k] == module_pos(modules@, module_of(p@[k])),
            forall|k: int| 0 <= k < p.len() ==> #[trigger] prios@[k] == priority_of(p@[k]),
            perm.len() == i,
            perm@.no_duplicates(),
            forall|k: int| 0 <= k < perm.len() ==> #[trigger] perm@[k] < i,
            forall|a: int, b: int|
                0 <= a < b < perm.len() ==> item_before(
                    p@,
                    modules@,
                    #[trigger] perm@[a],
                    #[trigger] perm@[b],
                ),
        decreases p.len() - i,
    {
        let ghost before = perm@;
        let mut q: usize = perm.len();
        while q > 0 && item_key_before(p, &ranks, &prios, i, perm[q - 1])
            invariant
                q <= perm.len(),
                perm@ == before,
                i < p.len(),
                ranks.len() == p.len(),
                prios.len() == p.len(),
                forall|k: int|
                    0 <= k < p.len() ==> #[trigger] ranks@[k] == module_pos(
                        modules@,
                        module_of(p@[k]),
                    ),
                forall|k: int| 0 <= k < p.len() ==> #[trigger] prios@[k] == priority_of(p@[k]),
                forall|k: int| 0 <= k < perm.len() ==> #[trigger] perm@[k] < i,
                forall|k: int|
                    q <= k < perm.len() ==> item_before(p@, modules@, i, #[trigger] perm@[k]),
            decreases q,
        {
            q = q - 1;
        }
        proof {
            assert forall|k: int| 0 <= k < q implies item_before(
                p@,
                modules@,
                #[trigger] perm@[k],
                i,
            ) by {
                let last = perm@[q - 1];
                assert(!item_before(p@, modules@, i, last));
                assert(last < i);
                if k < q - 1 {
                    assert(item_before(p@, modules@, perm@[k], last));
                }
            }
        }
        perm.insert(q, i);
        proof {
            let s = perm@;
            assert(s == before.insert(q as int, i));
            assert forall|a: int, b: int| 0 <= a < b < s.len() implies item_before(
                p@,
                modules@,
                #[trigger] s[a],
                #[trigger] s[b],
            ) by {
                if b < q {
                } else if b == q {
                } else if a < q {
                    assert(s[b] == before[b - 1]);
                    assert(item_before(p@, modules@, before[a], i));
                    assert(item_before(p@, modules@, i, before[b - 1]));
                } else if a == q {
                    assert(s[b] == before[b - 1]);
                } else {
                    assert(s[a] == before[a - 1]);
                    assert(s[b] == before[b - 1]);
                }
            }
            assert forall|a: int, b: int| 0 <= a < s.len() && 0 <= b < s.len() && a != b implies s[a]
                != s[b] by {
                if a < b {
                    assert(item_before(p@, modules@, s[a], s[b]));
                } else {
                    assert(item_before(p@, modules@, s[b], s[a]));
                }
            }
        }
        i = i + 1;
    }
    perm
}

impl ItemListDelegate {
    /// Abstract state of the base items.
    pub closed spec fn base_state(&self) -> BaseState<ListItem> {
        self.base@
    }

    /// Abstract state of the sections.
    pub closed spec fn section_state(&self) -> SectionState {
        self.sections@
    }

    /// The dynamic items.
    pub closed spec fn dynamic_items(&self) -> DynamicItems {
        self.dynamic
    }

    /// The modules of the view.
    pub closed spec fn modules(&self) -> Seq<ConfigModule> {
        self.combined_modules@
    }

    /// The search providers.
    pub closed spec fn providers(&self) -> Seq<SearchProvider> {
        self.providers@
    }

    /// Whether an AI backend is configured.
    pub closed spec fn ai_configured(&self) -> bool {
        self.ai_configured
    }

    /// The scoring configuration of the filter.
    pub closed spec fn filter_config(&self) -> FuzzyMatchConfig {
        self.filter.config
    }

    /// The sections agree with the visible base items and the dynamic items.
    pub open spec fn sections_agree(st: SectionState, base: BaseState<ListItem>, dy: DynamicItems) -> bool {
        &&& st.info.window_count == count_kind(base.items, base.filtered, 0)
        &&& st.info.command_count == count_kind(base.items, base.filtered, 1)
        &&& st.info.app_count == count_kind(base.items, base.filtered, 2)
        &&& st.info.search_count == dy.search_items@.len()
        &&& st.has_calculator == dy.calculator_item is Some
        &&& st.has_ai == dy.ai_item is Some
        &&& st.search_count == dy.search_items@.len()
        &&& st.best_match_filtered_pos is None
        &&& st.best_match_original_section is None
    }

    /// The delegate's invariant.
    pub open spec fn wf(&self) -> bool {
        &&& self.filter_config().wf()
        &&& self.base_state().items.len() <= size_limit()
        &&& self.providers().len() <= size_limit()
        &&& forall|k: int|
            0 <= k < self.base_state().filtered.len() ==> #[trigger] self.base_state().filtered[k]
                < self.base_state().items.len()
        &&& self.base_state().filtered.no_duplicates()
        &&& self.dynamic_items().search_items@.len() <= self.providers().len() + 1
        &&& self.section_state().modules == self.modules()
        &&& Self::sections_agree(self.section_state(), self.base_state(), self.dynamic_items())
    }

    /// Number of visible items: the visible base items and the dynamic items.
    pub open spec fn count_spec(&self) -> int {
        self.base_state().filtered.len() + self.dynamic_items().total_count()
    }

    /// The selected position among all visible entries.
    pub fn selected_index(&self) -> (s: Option<usize>)
        ensures
            s == self.base_state().selected,
    {
        self.base.selected_index()
    }

    /// Number of visible entries: the visible base items and the dynamic items.
    pub fn filtered_count(&self) -> (n: usize)
        requires
            self.wf(),
        ensures
            n == self.count_spec(),
    {
        proof {
            self.lemma_bounds();
        }
        self.base.filtered_count() + self.dynamic.count()
    }

    /// Select position `index` when it is among the visible entries; otherwise nothing
    /// changes.
    pub fn set_selected(&mut self, index: usize)
        requires
            old(self).wf(),
        ensures
            final(self).wf(),
            final(self).base_state() == (BaseState {
                selected: if index < old(self).count_spec() {
                    Some(index)
                } else {
                    old(self).base_state().selected
                },
                ..old(self).base_state()
            }),
            final(self).unchanged_but_base(*old(self)),
    {
        if index < self.filtered_count() {
            self.base.set_selected_unchecked(index);
        }
    }

    /// Everything but the base state is as in `other`.
    pub open spec fn unchanged_but_base(&self, other: Self) -> bool {
        &&& self.section_state() == other.section_state()
        &&& self.dynamic_items() == other.dynamic_items()
        &&& self.modules() == other.modules()
        &&& self.providers() == other.providers()
        &&& self.ai_configured() == other.ai_configured()
        &&& self.filter_config() == other.filter_config()
    }

    /// The configuration of the delegate is as in `other`.
    pub open spec fn same_setup(&self, other: Self) -> bool {
        &&& self.modules() == other.modules()
        &&& self.providers() == other.providers()
        &&& self.ai_configured() == other.ai_configured()
        &&& self.filter_config() == other.filter_config()
        &&& self.section_state().show_best_match == other.section_state().show_best_match
        &&& self.base_state().items == other.base_state().items
    }

    /// The current query.
    pub fn query(&self) -> (q: &str)
        ensures
            q@ == self.base_state().query,
    {
        self.base.query()
    }

    /// Clear the query and every dynamic item, and show all items again.
    pub fn clear_query(&mut self)
        requires
            old(self).wf(),
        ensures
            final(self).wf(),
            final(self).same_setup(*old(self)),
            final(self).base_state().query == Seq::<char>::empty(),
            final(self).base_state().filtered == all_indices(old(self).base_state().items.len()),
            final(self).base_state().selected == first_selection(
                old(self).base_state().items.len(),
            ),
            final(self).dynamic_items().calculator_item is None,
            final(self).dynamic_items().ai_item is None,
            final(self).dynamic_items().search_items@.len() == 0,
    {
        self.dynamic.clear();
        self.base.clear_query();
        self.update_sections();
        proof {
            let n = self.base_state().items.len();
            assert(all_indices(n).no_duplicates());
        }
    }

    /// Set the query and filter: the dynamic items for the query, then the matching
    /// base items, the first entry selected.
    ///
    /// `calculation` is what the calculator gives for the query, if anything.
    pub fn set_query(&mut self, query: String, calculation: Option<CalculatorItem>)
        requires
            old(self).wf(),
        ensures
            final(self).wf(),
            final(self).same_setup(*old(self)),
            final(self).base_state().query == query@,
            final(self).query_applied(calculation),
    {
        let q = query.clone();
        self.base.set_query(query);
        self.process_query(q.as_str(), calculation);
    }

    /// The dynamic items, the visible base items and the selection are those that the
    /// current query gives.
    pub open spec fn query_applied(&self, calculation: Option<CalculatorItem>) -> bool {
        let b = self.base_state();
        let m = self.modules();
        &&& processed(
            self.dynamic_items(),
            b.query,
            m.contains(ConfigModule::Calculator),
            m.contains(ConfigModule::Ai) && self.ai_configured(),
            m.contains(ConfigModule::Search),
            self.providers(),
            calculation,
        )
        &&& exists|f: Seq<FilteredItem>|
            #[trigger] filter_result(b.items, b.query, m, self.filter_config(), f) && b.filtered
                == f.map_values(|x: FilteredItem| x.index)
        &&& b.selected == reset_selection(self.count_spec())
    }

    fn process_query(&mut self, query: &str, calculation: Option<CalculatorItem>)
        requires
            old(self).wf(),
            query@ == old(self).base_state().query,
        ensures
            final(self).wf(),
            final(self).same_setup(*old(self)),
            final(self).base_state().query == old(self).base_state().query,
            final(self).query_applied(calculation),
    {
        let ai_enabled = has_module(&self.combined_modules, ConfigModule::Ai) && self.ai_configured;
        let calculator_enabled = has_module(&self.combined_modules, ConfigModule::Calculator);
        let search_enabled = has_module(&self.combined_modules, ConfigModule::Search);
        self.dynamic.process_query(
            query,
            calculator_enabled,
            ai_enabled,
            search_enabled,
            &self.providers,
            calculation,
        );
        proof {
            lemma_processed_search_bound(
                self.dynamic,
                query@,
                calculator_enabled,
                ai_enabled,
                search_enabled,
                self.providers@,
                calculation,
            );
        }
        self.filter_items();
        if self.base.selected_index().is_none() && self.filtered_count() > 0 {
            self.base.set_selected_unchecked(0);
        }
    }

    fn filter_items(&mut self)
        requires
            old(self).filter_config().wf(),
            old(self).base_state().items.len() <= size_limit(),
            old(self).providers().len() <= size_limit(),
            old(self).dynamic_items().search_items@.len() <= old(self).providers().len() + 1,
            old(self).section_state().modules == old(self).modules(),
        ensures
            final(self).wf(),
            final(self).same_setup(*old(self)),
            final(self).dynamic_items() == old(self).dynamic_items(),
            final(self).base_state().query == old(self).base_state().query,
            exists|f: Seq<FilteredItem>|
                #[trigger] filter_result(
                    final(self).base_state().items,
                    final(self).base_state().query,
                    final(self).modules(),
                    final(self).filter_config(),
                    f,
                ) && final(self).base_state().filtered == f.map_values(|x: FilteredItem| x.index),
            final(self).base_state().selected == reset_selection(final(self).count_spec()),
    {
        let filtered_indices = self.filter.filter_indices(
            self.base.items(),
            self.base.query(),
            &self.combined_modules,
        );
        let ghost b0 = self.base_state();
        let ghost f = choose|f: Seq<FilteredItem>|
            #[trigger] filter_result(b0.items, b0.query, self.modules(), self.filter_config(), f)
                && filtered_indices@ == f.map_values(|x: FilteredItem| x.index);
        proof {
            lemma_filter_result_indices(b0.items, b0.query, self.modules(), self.filter_config(), f);
            assert forall|k: int| 0 <= k < filtered_indices@.len() implies #[trigger] filtered_indices@[k]
                < b0.items.len() by {
                assert(filtered_indices@[k] == f[k].index);
            }
        }
        self.base.apply_filtered_indices(filtered_indices);
        self.update_sections();
        if self.base.selected_index().is_none() && self.filtered_count() > 0 {
            self.base.set_selected_unchecked(0);
        }
        proof {
            let b = self.base_state();
            assert(filter_result(b.items, b.query, self.modules(), self.filter_config(), f));
            assert(b.filtered == f.map_values(|x: FilteredItem| x.index));
        }
    }

    fn update_sections(&mut self)
        requires
            old(self).filter_config().wf(),
            old(self).base_state().items.len() <= size_limit(),
            old(self).providers().len() <= size_limit(),
            forall|k: int|
                0 <= k < old(self).base_state().filtered.len() ==> #[trigger] old(
                    self,
                ).base_state().filtered[k] < old(self).base_state().items.len(),
            old(self).base_state().filtered.no_duplicates(),
            old(self).dynamic_items().search_items@.len() <= old(self).providers().len() + 1,
            old(self).section_state().modules == old(self).modules(),
        ensures
            final(self).wf(),
            final(self).unchanged_but_sections(*old(self)),
            final(self).section_state().show_best_match == old(self).section_state().show_best_match,
    {
        self.sections.update(
            self.base.items(),
            self.base.filtered_indices(),
            self.dynamic.has_calculator(),
            self.dynamic.has_ai(),
            self.dynamic.search_count(),
        );
    }

    /// The entry at global index `global_index`: the calculator result first when there
    /// is one, then the entries of the other sections in display order, each once.
    pub fn get_item_at(&self, global_index: usize) -> (r: Option<ListItem>)
        requires
            self.wf(),
        ensures
            r == item_at(self.section_state(), self.base_state(), self.dynamic_items(), global_index as int),
    {
        proof {
            self.lemma_bounds();
        }
        let calc_offset: usize = if self.dynamic.has_calculator() {
            1
        } else {
            0
        };
        if global_index == 0 && self.dynamic.has_calculator() {
            return match &self.dynamic.calculator_item {
                Some(c) => Some(ListItem::Calculator(c.clone())),
                None => None,
            };
        }
        let ghost st = self.section_state();
        let ghost b = self.base_state();
        let ghost dy = self.dynamic_items();
        let ordered = self.sections.ordered_section_types();
        let mut regular_item_offset: usize = 0;
        let mut current_start: usize = calc_offset;
        let mut k: usize = 0;
        proof {
            lemma_prefix_total_mono(st, ordered@.len() as int);
        }
        while k < ordered.len()
            invariant
                self.wf(),
                st == self.section_state(),
                b == self.base_state(),
                dy == self.dynamic_items(),
                ordered@ == st.ordered(),
                k <= ordered.len(),
                current_start == calc_offset + scan_prefix(st, k as int),
                scan_prefix(st, k as int) <= st.prefix_total(k as int),
                regular_item_offset <= st.prefix_total(k as int),
                calc_offset <= 1,
                calc_offset == flag(dy.calculator_item is Some),
                st.total() <= 7 * size_limit() + 14,
                forall|j: int| 0 <= j <= ordered@.len() ==> st.prefix_total(j) <= st.total(),
                item_at(st, b, dy, global_index as int) == lookup(
                    st,
                    b,
                    dy,
                    global_index as int,
                    k as int,
                    current_start as int,
                    regular_item_offset as int,
                ),
            decreases ordered.len() - k,
        {
            let section_type = ordered[k];
            let section_count = self.sections.section_item_count(section_type);
            assert(st.prefix_total(k + 1) == st.prefix_total(k as int) + section_count);
            let scanned: usize = if section_type == SectionType::Calculator {
                0
            } else {
                section_count
            };
            assert(scan_prefix(st, k + 1) == scan_prefix(st, k as int) + scanned);
            let section_end = current_start + scanned;
            if global_index >= current_start && global_index < section_end {
                let row = global_index - current_start;
                return match section_type {
                    SectionType::Calculator => None,
                    SectionType::Windows | SectionType::Commands | SectionType::Applications => {
                        let base_idx = regular_item_offset + row;
                        match self.base.get_filtered_item(base_idx) {
                            Some(item) => Some(item.clone()),
                            None => None,
                        }
                    },
                    SectionType::SearchAndAi => {
                        let ai_count: usize = if self.dynamic.has_ai() {
                            1
                        } else {
                            0
                        };
                        if row == 0 && self.dynamic.has_ai() {
                            match &self.dynamic.ai_item {
                                Some(a) => Some(ListItem::Ai(a.clone())),
                                None => None,
                            }
                        } else {
                            let search_idx = row - ai_count;
                            if search_idx < self.dynamic.search_items.len() {
                                Some(ListItem::Search(self.dynamic.search_items[search_idx].clone()))
                            } else {
                                None
                            }
                        }
                    },
                    SectionType::BestMatch => None,
                };
            }
            match section_type {
                SectionType::Windows | SectionType::Commands | SectionType::Applications => {
                    regular_item_offset = regular_item_offset + section_count;
                },
                _ => {},
            }
            current_start = section_end;
            k = k + 1;
        }
        None
    }

    /// The entry that confirming hands on: the selected one, if any.
    pub fn do_confirm(&self) -> (r: Option<ListItem>)
        requires
            self.wf(),
        ensures
            r == (match self.base_state().selected {
                Some(i) => item_at(self.section_state(), self.base_state(), self.dynamic_items(), i as int),
                None => None,
            }),
    {
        match self.selected_index() {
            Some(idx) => self.get_item_at(idx),
            None => None,
        }
    }

    /// Move the selection down one entry, wrapping to the first.
    pub fn select_down(&mut self)
        requires
            old(self).wf(),
        ensures
            final(self).wf(),
            final(self).unchanged_but_base(*old(self)),
            final(self).base_state() == (BaseState {
                selected: if old(self).count_spec() == 0 {
                    old(self).base_state().selected
                } else {
                    step_down(old(self).base_state().selected, old(self).count_spec() as nat)
                },
                ..old(self).base_state()
            }),
    {
        let count = self.filtered_count();
        if count == 0 {
            return;
        }
        let current = match self.selected_index() {
            Some(c) => c,
            None => 0,
        };
        let next = if current >= count - 1 {
            0
        } else {
            current + 1
        };
        self.set_selected(next);
    }

    /// Move the selection up one entry, wrapping to the last; a selection that lies two
    /// or more past the visible entries stays where it is.
    pub fn select_up(&mut self)
        requires
            old(self).wf(),
        ensures
            final(self).wf(),
            final(self).unchanged_but_base(*old(self)),
            final(self).base_state() == (BaseState {
                selected: if old(self).count_spec() == 0 || step_up(
                    old(self).base_state().selected,
                    old(self).count_spec() as nat,
                )->0 >= old(self).count_spec() {
                    old(self).base_state().selected
                } else {
                    step_up(old(self).base_state().selected, old(self).count_spec() as nat)
                },
                ..old(self).base_state()
            }),
    {
        let count = self.filtered_count();
        if count == 0 {
            return;
        }
        let current = match self.selected_index() {
            Some(c) => c,
            None => 0,
        };
        let prev = if current == 0 {
            count - 1
        } else {
            current - 1
        };
        self.set_selected(prev);
    }

    /// All base items, in display order before filtering.
    pub fn items(&self) -> (s: &[ListItem])
        ensures
            s@ == self.base_state().items,
    {
        self.base.items()
    }

    /// The (section, row) position of a global index; `None` past the last entry.
    pub fn global_to_index_path(&self, global_idx: usize) -> (p: Option<(usize, usize)>)
        requires
            self.wf(),
        ensures
            match self.section_state().path_from(global_idx as int, 0, 0, 0) {
                Some(q) => p == Some((q.0 as usize, q.1 as usize)),
                None => p is None,
            },
    {
        proof {
            self.lemma_bounds();
        }
        self.sections.global_to_index_path(global_idx)
    }

    /// Number of sections.
    pub fn sections_count(&self) -> (n: usize)
        ensures
            n == self.section_state().ordered().len(),
    {
        self.sections.sections_count()
    }

    /// Number of entries in section `section`.
    pub fn items_count(&self, section: usize) -> (n: usize)
        ensures
            n == self.section_state().item_count(self.section_state().type_at(section as int)),
    {
        let section_type = self.sections.section_type_at(section);
        self.sections.section_item_count(section_type)
    }

    /// The title shown above section `section`, if one is shown.
    pub fn section_header(&self, section: usize) -> (h: Option<&'static str>)
        ensures
            match header_of(self.section_state(), section as int) {
                Some(t) => h matches Some(x) && x@ == t,
                None => h is None,
            },
    {
        let section_type = self.sections.section_type_at(section);
        let sections = self.sections.ordered_section_types();
        if sections.len() <= 1 {
            return None;
        }
        if section_type == SectionType::SearchAndAi {
            let mut has_other_sections = false;
            let mut i: usize = 0;
            while i < sections.len()
                invariant
                    i <= sections.len(),
                    has_other_sections == exists|j: int|
                        0 <= j < i && #[trigger] sections@[j] != SectionType::SearchAndAi,
                decreases sections.len() - i,
            {
                if sections[i] != SectionType::SearchAndAi {
                    has_other_sections = true;
                }
                i = i + 1;
            }
            if !has_other_sections {
                return None;
            }
        }
        Some(section_type.title())
    }

    /// The global index of row `row` of section `section`.
    pub fn section_row_to_global(&self, section: usize, row: usize) -> (n: usize)
        requires
            self.wf(),
            row <= size_limit(),
        ensures
            n == self.section_state().start_of(self.section_state().type_at(section as int)) + row,
    {
        proof {
            self.lemma_bounds();
        }
        self.sections.section_row_to_global(section, row)
    }

    /// Select the entry at a (section, row) position, or the first when none is given.
    pub fn set_selected_index_path(&mut self, ix: Option<(usize, usize)>)
        requires
            old(self).wf(),
            ix matches Some(p) ==> p.1 <= size_limit(),
        ensures
            final(self).wf(),
            final(self).unchanged_but_base(*old(self)),
            final(self).base_state() == (BaseState {
                selected: Some(
                    match ix {
                        Some(p) => (old(self).section_state().start_of(
                            old(self).section_state().type_at(p.0 as int),
                        ) + p.1) as usize,
                        None => 0usize,
                    },
                ),
                ..old(self).base_state()
            }),
    {
        let global_idx = match ix {
            Some(p) => self.section_row_to_global(p.0, p.1),
            None => 0,
        };
        self.base.set_selected_unchecked(global_idx);
    }

    /// The entry shown at a (section, row) position, with its global index and whether
    /// it is selected.
    pub fn item_at_index_path(&self, section: usize, row: usize) -> (r: Option<(usize, bool, ListItem)>)
        requires
            self.wf(),
            row <= size_limit(),
        ensures
            ({
                let st = self.section_state();
                let g = st.start_of(st.type_at(section as int)) + row;
                match item_at(st, self.base_state(), self.dynamic_items(), g) {
                    Some(it) => r == Some(
                        (g as usize, self.base_state().selected == Some(g as usize), it),
                    ),
                    None => r is None,
                }
            }),
    {
        let global_idx = self.section_row_to_global(section, row);
        let selected = match self.base.selected_index() {
            Some(s) => s == global_idx,
            None => false,
        };
        match self.get_item_at(global_idx) {
            Some(item) => Some((global_idx, selected, item)),
            None => None,
        }
    }

    /// Everything but the section state is as in `other`.
    pub open spec fn unchanged_but_sections(&self, other: Self) -> bool {
        &&& self.base_state() == other.base_state()
        &&& self.dynamic_items() == other.dynamic_items()
        &&& self.modules() == other.modules()
        &&& self.providers() == other.providers()
        &&& self.ai_configured() == other.ai_configured()
        &&& self.filter_config() == other.filter_config()
    }

    proof fn lemma_bounds(&self)
        requires
            self.wf(),
        ensures
            self.section_state().total() <= 7 * size_limit() + 14,
            self.count_spec() <= 3 * size_limit() + 3,
            self.base_state().filtered.len() <= self.base_state().items.len(),
            self.dynamic_items().total_count() <= size_limit() + 3,
    {
        let b = self.base_state();
        lemma_distinct_below(b.filtered, b.items.len() as int);
        lemma_count_kind_bound(b.items, b.filtered, 0);
        lemma_count_kind_bound(b.items, b.filtered, 1);
        lemma_count_kind_bound(b.items, b.filtered, 2);
        lemma_total_bound(self.section_state(), size_limit() + 2);
    }

    /// A delegate for `items` in the view of `combined_modules`: applications and
    /// windows are kept only when their module is enabled, the built-in submenus and
    /// actions of enabled modules are added, and everything is ordered by module
    /// position, then kind priority, then input order.
    pub fn new(
        items: Vec<ListItem>,
        combined_modules: Vec<ConfigModule>,
        show_best_match: bool,
        ai_configured: bool,
        providers: Vec<SearchProvider>,
        filter_config: FuzzyMatchConfig,
    ) -> (d: Self)
        requires
            items.len() + 8 <= size_limit(),
            providers.len() <= size_limit(),
            filter_config.wf(),
        ensures
            d.wf(),
            exists|extras: Seq<ListItem>, perm: Seq<usize>|
                {
                    &&& #[trigger] builtin_entries_ok(combined_modules@, extras)
                    &&& #[trigger] sorted_perm(retained(items@, combined_modules@) + extras, combined_modules@, perm)
                    &&& d.base_state().items == perm.map_values(
                        |k: usize| (retained(items@, combined_modules@) + extras)[k as int],
                    )
                },
            d.base_state().filtered == all_indices(d.base_state().items.len()),
            d.base_state().selected == first_selection(d.base_state().items.len()),
            d.base_state().query == Seq::<char>::empty(),
            d.dynamic_items().calculator_item is None,
            d.dynamic_items().ai_item is None,
            d.dynamic_items().search_items@.len() == 0,
            d.modules() == combined_modules@,
            d.providers() == providers@,
            d.ai_configured() == ai_configured,
            d.filter_config() == filter_config,
            d.section_state().show_best_match == show_best_match,
    {
        let kept = retain_items(items, &combined_modules);
        let extras = builtin_entries(&combined_modules);
        proof {
            lemma_retained_len(items@, combined_modules@);
        }
        let prepared = concat_items(&kept, &extras);
        let perm = sort_order(&prepared, &combined_modules);
        let mut sorted: Vec<ListItem> = Vec::new();
        let mut i: usize = 0;
        while i < perm.len()
            invariant
                i <= perm.len() == prepared.len(),
                forall|k: int| 0 <= k < perm.len() ==> #[trigger] perm@[k] < prepared.len(),
                sorted@ == perm@.take(i as int).map_values(|k: usize| prepared@[k as int]),
            decreases perm.len() - i,
        {
            sorted.push(prepared[perm[i]].clone());
            i = i + 1;
            assert(perm@.take(i as int).map_values(|k: usize| prepared@[k as int]) == perm@.take(
                i - 1 as int,
            ).map_values(|k: usize| prepared@[k as int]).push(prepared@[perm@[i - 1] as int]));
        }
        assert(perm@.take(perm.len() as int) == perm@);
        let n = sorted.len();
        let mut sections = SectionManager::new(combined_modules.clone(), show_best_match);
        let all: Vec<usize> = index_range(n);
        sections.update(sorted.as_slice(), all.as_slice(), false, false, 0);
        let base = BaseDelegate::new(sorted);
        let d = ItemListDelegate {
            base,
            filter: ItemFilter::new(filter_config),
            dynamic: DynamicItems::new(),
            sections,
            combined_modules,
            ai_configured,
            providers,
        };
        proof {
            let ex = extras@;
            let pm = perm@;
            assert(builtin_entries_ok(combined_modules@, ex));
            assert(sorted_perm(retained(items@, combined_modules@) + ex, combined_modules@, pm));
            assert(all_indices(n as nat).no_duplicates());
        }
        d
    }
}

proof fn lemma_retained_len(items: Seq<ListItem>, modules: Seq<ConfigModule>)
    ensures
        retained(items, modules).len() <= items.len(),
    decreases items.len(),
{
    if items.len() > 0 {
        lemma_retained_len(items.drop_last(), modules);
    }
}

} // verus!
