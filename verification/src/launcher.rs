//! Launcher state: the modes cycled with ctrl-tab, the view modes, and the decisions
//! that the launcher takes on confirm, cancel and go-back.
use vstd::prelude::*;

use crate::config::{get_combined_modules, AppConfig, ConfigModule, LauncherMode};
use crate::base_delegate::{step_down, step_up, BaseState};
use crate::item_delegate::{item_at, ItemListDelegate};
use crate::items::ListItem;
use crate::section_manager::SectionState;

verus! {

/// Placeholder text of the search input in the main launcher view.
pub const DEFAULT_PLACEHOLDER: &'static str = "Search applications...";

/// Tracks the active modes list and current mode index.
#[derive(Debug)]
pub struct ModeState {
    /// Ordered list of enabled modes.
    pub modes: Vec<LauncherMode>,
    /// Index of the currently active mode.
    pub current_index: usize,
}

/// The index after `i` among `n` modes, wrapping.
pub open spec fn next_index(i: int, n: int) -> int {
    (i + 1) % n
}

/// The index before `i` among `n` modes, wrapping.
pub open spec fn prev_index(i: int, n: int) -> int {
    if i == 0 {
        n - 1
    } else {
        i - 1
    }
}

impl ModeState {
    /// The current index points at one of the modes.
    pub open spec fn wf(&self) -> bool {
        self.current_index < self.modes.len()
    }

    /// A mode state over `modes`, the first one current.
    pub fn new(modes: Vec<LauncherMode>) -> (s: Self)
        ensures
            s.modes@ == modes@,
            s.current_index == 0,
    {
        ModeState { modes, current_index: 0 }
    }

    /// The currently active mode.
    pub fn current_mode(&self) -> (m: &LauncherMode)
        requires
            self.wf(),
        ensures
            *m == self.modes@[self.current_index as int],
    {
        &self.modes[self.current_index]
    }

    /// Switch to the next mode, wrapping to the first.
    pub fn next_mode(&mut self)
        requires
            old(self).modes.len() > 0,
            old(self).current_index < usize::MAX,
        ensures
            final(self).modes@ == old(self).modes@,
            final(self).current_index == next_index(
                old(self).current_index as int,
                old(self).modes.len() as int,
            ),
            final(self).wf(),
    {
        self.current_index = (self.current_index + 1) % self.modes.len();
    }

    /// Switch to the previous mode, wrapping to the last.
    pub fn prev_mode(&mut self)
        requires
            old(self).current_index > 0 || old(self).modes.len() > 0,
        ensures
            final(self).modes@ == old(self).modes@,
            final(self).current_index == prev_index(
                old(self).current_index as int,
                old(self).modes.len() as int,
            ),
            old(self).wf() ==> final(self).wf(),
    {
        self.current_index = if self.current_index == 0 {
            self.modes.len() - 1
        } else {
            self.current_index - 1
        };
    }

    /// Whether there are several modes to switch between.
    pub fn has_multiple_modes(&self) -> (b: bool)
        ensures
            b == (self.modes.len() > 1),
    {
        self.modes.len() > 1
    }
}

impl Default for ModeState {
    fn default() -> (s: Self)
        ensures
            s.modes@ == seq![LauncherMode::Combined],
            s.current_index == 0,
    {
        ModeState::new(vec![LauncherMode::Combined])
    }
}

/// Switching to the next mode and then back to the previous one returns to the mode
/// one started from.
pub proof fn law_next_then_prev(i: int, n: int)
    requires
        0 <= i < n,
    ensures
        prev_index(next_index(i, n), n) == i,
{
    if i + 1 < n {
        assert((i + 1) % n == i + 1) by (nonlinear_arith)
            requires
                0 <= i + 1 < n,
        ;
    } else {
        vstd::arithmetic::div_mod::lemma_mod_self_0(n);
    }
}

/// Switching to the previous mode and then to the next one returns to the mode one
/// started from.
pub proof fn law_prev_then_next(i: int, n: int)
    requires
        0 <= i < n,
    ensures
        next_index(prev_index(i, n), n) == i,
{
    if i == 0 {
        vstd::arithmetic::div_mod::lemma_mod_self_0(n);
    } else {
        assert(i % n == i) by (nonlinear_arith)
            requires
                0 < i < n,
        ;
    }
}

/// The view that the launcher shows.
#[derive(Clone, Copy, Debug, PartialEq, Eq, Structural)]
pub enum ViewMode {
    /// Main launcher view showing apps, windows, commands.
    Main,
    /// Emoji picker grid view.
    EmojiPicker,
    /// Clipboard history view.
    ClipboardHistory,
    /// AI response streaming view.
    AiResponse,
    /// Theme picker view.
    ThemePicker,
}

impl Default for ViewMode {
    fn default() -> (v: Self)
        ensures
            v == ViewMode::Main,
    {
        ViewMode::Main
    }
}

/// The modules that a launcher mode shows in the main list.
pub open spec fn modules_for_mode_spec(mode: LauncherMode, combined: Seq<ConfigModule>) -> Seq<
    ConfigModule,
> {
    match mode {
        LauncherMode::Applications => seq![ConfigModule::Applications],
        LauncherMode::Windows => seq![ConfigModule::Windows],
        LauncherMode::Actions => seq![ConfigModule::Actions],
        LauncherMode::Search => seq![ConfigModule::Search],
        LauncherMode::Calculator => seq![ConfigModule::Calculator],
        _ => combined,
    }
}

/// The modules to show for a launcher mode: the single module of a single-module mode,
/// otherwise the combined modules of the configuration.
pub fn modules_for_mode(mode: &LauncherMode, config: &AppConfig) -> (v: Vec<ConfigModule>)
    ensures
        v@ == modules_for_mode_spec(
            *mode,
            match config.combined_modules {
                Some(m) => m@,
                None => crate::config::default_combined_modules_spec(),
            },
        ),
{
    match mode {
        LauncherMode::Applications => vec![ConfigModule::Applications],
        LauncherMode::Windows => vec![ConfigModule::Windows],
        LauncherMode::Actions => vec![ConfigModule::Actions],
        LauncherMode::Search => vec![ConfigModule::Search],
        LauncherMode::Calculator => vec![ConfigModule::Calculator],
        _ => get_combined_modules(config),
    }
}

/// The placeholder text of the search input for a launcher mode.
pub open spec fn placeholder_spec(mode: LauncherMode) -> Seq<char> {
    match mode {
        LauncherMode::Combined => "Search anything..."@,
        LauncherMode::Applications => "Search applications..."@,
        LauncherMode::Windows => "Search windows..."@,
        LauncherMode::Actions => "Search actions..."@,
        LauncherMode::Emojis => "Search emojis..."@,
        LauncherMode::Clipboard => "Search clipboard..."@,
        LauncherMode::Themes => "Search themes..."@,
        LauncherMode::Ai => "Ask AI..."@,
        LauncherMode::Search => "Search the web..."@,
        LauncherMode::Calculator => "Calculate..."@,
    }
}

/// The placeholder text of the search input for a launcher mode.
pub fn placeholder_for_mode(mode: &LauncherMode) -> (s: &'static str)
    ensures
        s@ == placeholder_spec(*mode),
{
    match mode {
        LauncherMode::Combined => "Search anything...",
        LauncherMode::Applications => "Search applications...",
        LauncherMode::Windows => "Search windows...",
        LauncherMode::Actions => "Search actions...",
        LauncherMode::Emojis => "Search emojis...",
        LauncherMode::Clipboard => "Search clipboard...",
        LauncherMode::Themes => "Search themes...",
        LauncherMode::Ai => "Ask AI...",
        LauncherMode::Search => "Search the web...",
        LauncherMode::Calculator => "Calculate...",
    }
}

/// What the launcher does when its current mode becomes active.
#[derive(Clone, Copy, Debug, PartialEq, Eq, Structural)]
pub enum ModeEntry {
    /// Rebuild the main list for the mode's modules and show it.
    MainList,
    /// Open the emoji picker.
    Emojis,
    /// Open the clipboard history.
    Clipboard,
    /// Open the theme picker.
    Themes,
}

/// What the launcher does when `mode` becomes active.
pub fn entry_for_mode(mode: &LauncherMode) -> (e: ModeEntry)
    ensures
        e == (match *mode {
            LauncherMode::Emojis => ModeEntry::Emojis,
            LauncherMode::Clipboard => ModeEntry::Clipboard,
            LauncherMode::Themes => ModeEntry::Themes,
            _ => ModeEntry::MainList,
        }),
{
    match mode {
        LauncherMode::Emojis => ModeEntry::Emojis,
        LauncherMode::Clipboard => ModeEntry::Clipboard,
        LauncherMode::Themes => ModeEntry::Themes,
        _ => ModeEntry::MainList,
    }
}

/// What confirming in the main view does.
#[derive(Clone, Copy, Debug, PartialEq, Eq, Structural)]
pub enum MainConfirm {
    /// Open the emoji picker.
    OpenEmojis,
    /// Open the clipboard history.
    OpenClipboard,
    /// Open the theme picker.
    OpenThemes,
    /// Ask the AI.
    OpenAi,
    /// Hand the selected entry to the confirm handler.
    ConfirmSelected,
}

/// What confirming `item` (the selected entry, if any) does in the main view.
pub open spec fn main_confirm_spec(item: Option<ListItem>) -> MainConfirm {
    match item {
        Some(ListItem::Submenu(s)) => if s.id@ == "submenu-emojis"@ {
            MainConfirm::OpenEmojis
        } else if s.id@ == "submenu-clipboard"@ {
            MainConfirm::OpenClipboard
        } else if s.id@ == "submenu-themes"@ {
            MainConfirm::OpenThemes
        } else {
            MainConfirm::ConfirmSelected
        },
        Some(ListItem::Ai(_)) => MainConfirm::OpenAi,
        _ => MainConfirm::ConfirmSelected,
    }
}

/// What confirming the selected entry does in the main view: a submenu opens its view,
/// an AI entry opens the AI view, anything else goes to the confirm handler.
pub fn main_confirm(item: &Option<ListItem>) -> (c: MainConfirm)
    ensures
        c == main_confirm_spec(*item),
{
    match item {
        Some(ListItem::Submenu(s)) => {
            let id = crate::text::chars_of(s.id.as_str());
            if crate::text::chars_eq(&id, &crate::text::chars_of("submenu-emojis")) {
                MainConfirm::OpenEmojis
            } else if crate::text::chars_eq(&id, &crate::text::chars_of("submenu-clipboard")) {
                MainConfirm::OpenClipboard
            } else if crate::text::chars_eq(&id, &crate::text::chars_of("submenu-themes")) {
                MainConfirm::OpenThemes
            } else {
                MainConfirm::ConfirmSelected
            }
        },
        Some(ListItem::Ai(_)) => MainConfirm::OpenAi,
        _ => MainConfirm::ConfirmSelected,
    }
}

/// What going back does.
#[derive(Clone, Copy, Debug, PartialEq, Eq, Structural)]
pub enum BackAction {
    /// Nothing happens.
    Stay,
    /// The launcher hides.
    Hide,
    /// The configured theme is restored and the launcher hides.
    RestoreThemeAndHide,
    /// The emoji picker closes.
    ExitEmojis,
    /// The clipboard history closes.
    ExitClipboard,
    /// The theme picker closes.
    ExitThemes,
    /// The AI view closes.
    ExitAi,
}

/// What going back does in `view` when the launcher runs in `mode`: in a mode other
/// than the combined one, the main view and the mode's own picker hide the launcher;
/// otherwise a picker closes and the main view stays.
pub open spec fn go_back_spec(mode: LauncherMode, view: ViewMode) -> BackAction {
    let direct = mode != LauncherMode::Combined;
    match view {
        ViewMode::Main => if direct {
            BackAction::Hide
        } else {
            BackAction::Stay
        },
        ViewMode::EmojiPicker => if direct {
            BackAction::Hide
        } else {
            BackAction::ExitEmojis
        },
        ViewMode::ClipboardHistory => if direct {
            BackAction::Hide
        } else {
            BackAction::ExitClipboard
        },
        ViewMode::ThemePicker => if direct {
            BackAction::RestoreThemeAndHide
        } else {
            BackAction::ExitThemes
        },
        ViewMode::AiResponse => BackAction::ExitAi,
    }
}

/// What going back does in `view` when the launcher runs in `mode`.
pub fn go_back_action(mode: &LauncherMode, view: ViewMode) -> (a: BackAction)
    ensures
        a == go_back_spec(*mode, view),
{
    let is_direct_mode = match mode {
        LauncherMode::Combined => false,
        _ => true,
    };
    match view {
        ViewMode::Main => if is_direct_mode {
            BackAction::Hide
        } else {
            BackAction::Stay
        },
        ViewMode::EmojiPicker => if is_direct_mode {
            BackAction::Hide
        } else {
            BackAction::ExitEmojis
        },
        ViewMode::ClipboardHistory => if is_direct_mode {
            BackAction::Hide
        } else {
            BackAction::ExitClipboard
        },
        ViewMode::ThemePicker => if is_direct_mode {
            BackAction::RestoreThemeAndHide
        } else {
            BackAction::ExitThemes
        },
        ViewMode::AiResponse => BackAction::ExitAi,
    }
}

/// Whether cancelling goes back (in every view but the main one, where the list's own
/// cancel handler runs).
pub fn cancel_goes_back(view: ViewMode) -> (b: bool)
    ensures
        b == (view != ViewMode::Main),
{
    match view {
        ViewMode::Main => false,
        _ => true,
    }
}


/// Switch to the next mode when there are several; tells whether it switched.
pub fn switch_mode_next(state: &mut ModeState) -> (switched: bool)
    requires
        old(state).wf(),
    ensures
        final(state).wf(),
        final(state).modes@ == old(state).modes@,
        switched == (old(state).modes.len() > 1),
        final(state).current_index == if switched {
            next_index(old(state).current_index as int, old(state).modes.len() as int)
        } else {
            old(state).current_index as int
        },
{
    if !state.has_multiple_modes() {
        return false;
    }
    state.next_mode();
    true
}

/// Switch to the previous mode when there are several; tells whether it switched.
pub fn switch_mode_prev(state: &mut ModeState) -> (switched: bool)
    requires
        old(state).wf(),
    ensures
        final(state).wf(),
        final(state).modes@ == old(state).modes@,
        switched == (old(state).modes.len() > 1),
        final(state).current_index == if switched {
            prev_index(old(state).current_index as int, old(state).modes.len() as int)
        } else {
            old(state).current_index as int
        },
{
    if !state.has_multiple_modes() {
        return false;
    }
    state.prev_mode();
    true
}

/// A navigation key.
#[derive(Clone, Copy, Debug, PartialEq, Eq, Structural)]
pub enum NavKey {
    /// Down arrow.
    Next,
    /// Up arrow.
    Prev,
    /// Tab.
    Tab,
    /// Shift+Tab.
    TabPrev,
}

/// The selection move that a list delegate makes.
#[derive(Clone, Copy, Debug, PartialEq, Eq, Structural)]
pub enum ListMove {
    /// `select_down`: the next entry (the next row in the emoji grid).
    Down,
    /// `select_up`: the previous entry (the previous row in the emoji grid).
    Up,
    /// `select_right`: the next emoji.
    Right,
    /// `select_left`: the previous emoji.
    Left,
}

/// What the view scrolls to after a move.
#[derive(Clone, Copy, Debug, PartialEq, Eq, Structural)]
pub enum ScrollTo {
    /// The (section, row) position of the selected entry.
    SectionPath,
    /// The grid row of the selected emoji.
    GridRow,
    /// The selected index.
    Index,
}

/// The move and scroll that a navigation key makes in a view: vertical moves in every
/// list, Tab moving by one emoji in the grid; nothing in the AI view.
pub open spec fn navigation_spec(view: ViewMode, key: NavKey) -> Option<(ListMove, ScrollTo)> {
    let forward = key == NavKey::Next || key == NavKey::Tab;
    let vertical = if forward {
        ListMove::Down
    } else {
        ListMove::Up
    };
    match view {
        ViewMode::Main => Some((vertical, ScrollTo::SectionPath)),
        ViewMode::EmojiPicker => Some(
            (
                match key {
                    NavKey::Tab => ListMove::Right,
                    NavKey::TabPrev => ListMove::Left,
                    _ => vertical,
                },
                ScrollTo::GridRow,
            ),
        ),
        ViewMode::ClipboardHistory => Some((vertical, ScrollTo::Index)),
        ViewMode::ThemePicker => Some((vertical, ScrollTo::Index)),
        ViewMode::AiResponse => None,
    }
}

/// The move and scroll that a navigation key makes in a view.
pub fn navigation_step(view: ViewMode, key: NavKey) -> (r: Option<(ListMove, ScrollTo)>)
    ensures
        r == navigation_spec(view, key),
{
    let vertical = match key {
        NavKey::Next | NavKey::Tab => ListMove::Down,
        NavKey::Prev | NavKey::TabPrev => ListMove::Up,
    };
    match view {
        ViewMode::Main => Some((vertical, ScrollTo::SectionPath)),
        ViewMode::EmojiPicker => {
            let m = match key {
                NavKey::Tab => ListMove::Right,
                NavKey::TabPrev => ListMove::Left,
                _ => vertical,
            };
            Some((m, ScrollTo::GridRow))
        },
        ViewMode::ClipboardHistory | ViewMode::ThemePicker => Some((vertical, ScrollTo::Index)),
        ViewMode::AiResponse => None,
    }
}

/// The (section, row) position of global index `g`, if it has one.
pub open spec fn path_of(st: SectionState, g: int) -> Option<(usize, usize)> {
    match st.path_from(g, 0, 0, 0) {
        Some(q) => Some((q.0 as usize, q.1 as usize)),
        None => None,
    }
}

/// The selection of the main list after a navigation key: as `select_down` leaves it
/// for the down arrow and Tab, as `select_up` leaves it for the up arrow and Shift+Tab.
pub open spec fn main_selection_after(d: ItemListDelegate, key: NavKey) -> Option<usize> {
    let sel = d.base_state().selected;
    let n = d.count_spec();
    if n == 0 {
        sel
    } else if key == NavKey::Next || key == NavKey::Tab {
        step_down(sel, n as nat)
    } else if step_up(sel, n as nat)->0 >= n {
        sel
    } else {
        step_up(sel, n as nat)
    }
}

/// The position that the main list selects and scrolls to after a navigation key: that
/// of the new selection for the arrows; for Tab and Shift+Tab, that of the entry they
/// aimed at; none when the list is empty.
pub open spec fn main_scroll_after(d: ItemListDelegate, key: NavKey) -> Option<(usize, usize)> {
    let sel = d.base_state().selected;
    let n = d.count_spec();
    let st = d.section_state();
    match key {
        NavKey::Tab => if n == 0 {
            None
        } else {
            path_of(st, step_down(sel, n as nat)->0 as int)
        },
        NavKey::TabPrev => if n == 0 {
            None
        } else {
            path_of(st, step_up(sel, n as nat)->0 as int)
        },
        _ => match main_selection_after(d, key) {
            Some(i) => path_of(st, i as int),
            None => None,
        },
    }
}

/// A navigation key in the main list: moves the selection and gives the (section, row)
/// position that the list then selects and scrolls to, if any.
pub fn navigate_main_list(list: &mut ItemListDelegate, key: NavKey) -> (path: Option<(usize, usize)>)
    requires
        old(list).wf(),
    ensures
        final(list).wf(),
        final(list).unchanged_but_base(*old(list)),
        final(list).base_state() == (BaseState {
            selected: main_selection_after(*old(list), key),
            ..old(list).base_state()
        }),
        path == main_scroll_after(*old(list), key),
{
    match key {
        NavKey::Next | NavKey::Prev => {
            if key == NavKey::Next {
                list.select_down();
            } else {
                list.select_up();
            }
            match list.selected_index() {
                Some(idx) => list.global_to_index_path(idx),
                None => None,
            }
        },
        NavKey::Tab | NavKey::TabPrev => {
            let count = list.filtered_count();
            if count == 0 {
                return None;
            }
            let current = match list.selected_index() {
                Some(c) => c,
                None => 0,
            };
            let target = if key == NavKey::Tab {
                if current >= count - 1 {
                    0
                } else {
                    current + 1
                }
            } else if current == 0 {
                count - 1
            } else {
                current - 1
            };
            list.set_selected(target);
            list.global_to_index_path(target)
        },
    }
}

/// The question of the selected entry when it is an AI entry.
pub fn ai_query_of(item: &Option<ListItem>) -> (q: Option<String>)
    ensures
        match item {
            Some(ListItem::Ai(a)) => q matches Some(s) && s@ == a.query@,
            _ => q is None,
        },
{
    match item {
        Some(ListItem::Ai(a)) => Some(a.query.clone()),
        _ => None,
    }
}


/// The entry that the main list's selection points at (the first when none is selected).
pub open spec fn selected_entry(list: ItemListDelegate) -> Option<ListItem> {
    let g = match list.base_state().selected {
        Some(i) => i as int,
        None => 0,
    };
    item_at(list.section_state(), list.base_state(), list.dynamic_items(), g)
}

/// The question to ask the AI when entering or updating the AI view: that of the
/// selected entry (the first when none is selected), when it is an AI entry.
pub fn selected_ai_query(list: &ItemListDelegate) -> (q: Option<String>)
    requires
        list.wf(),
    ensures
        match selected_entry(*list) {
            Some(ListItem::Ai(a)) => q matches Some(s) && s@ == a.query@,
            _ => q is None,
        },
{
    let index = match list.selected_index() {
        Some(i) => i,
        None => 0,
    };
    let item = list.get_item_at(index);
    ai_query_of(&item)
}

/// What confirming does in the main view, for the main list's selected entry (the first
/// when none is selected).
pub fn main_list_confirm(list: &ItemListDelegate) -> (c: MainConfirm)
    requires
        list.wf(),
    ensures
        c == main_confirm_spec(selected_entry(*list)),
{
    let index = match list.selected_index() {
        Some(i) => i,
        None => 0,
    };
    let item = list.get_item_at(index);
    main_confirm(&item)
}

/// The view that the launcher opens with when `mode` is its first mode.
pub open spec fn initial_view_spec(mode: LauncherMode) -> ViewMode {
    match mode {
        LauncherMode::Emojis => ViewMode::EmojiPicker,
        LauncherMode::Clipboard => ViewMode::ClipboardHistory,
        LauncherMode::Themes => ViewMode::ThemePicker,
        LauncherMode::Ai => ViewMode::AiResponse,
        _ => ViewMode::Main,
    }
}

/// The view that the launcher opens with for its first mode.
pub fn initial_view_mode(mode: &LauncherMode) -> (v: ViewMode)
    ensures
        v == initial_view_spec(*mode),
{
    match mode {
        LauncherMode::Emojis => ViewMode::EmojiPicker,
        LauncherMode::Clipboard => ViewMode::ClipboardHistory,
        LauncherMode::Themes => ViewMode::ThemePicker,
        LauncherMode::Ai => ViewMode::AiResponse,
        _ => ViewMode::Main,
    }
}

/// The icon in front of the search input.
#[derive(Clone, Copy, Debug, PartialEq, Eq, Structural)]
pub enum PrefixIcon {
    Search,
    LayoutDashboard,
    Settings,
    Globe,
    /// A back arrow that leaves the view (shown after entering it from the main list).
    Back,
    Copy,
    Palette,
    Bot,
}

/// The icon in front of the search input: in the main view by launcher mode; in a
/// picker a back arrow when it was entered from the main list, else the view's icon.
pub open spec fn input_prefix_spec(view: ViewMode, mode: LauncherMode, navigated: bool) -> PrefixIcon {
    match view {
        ViewMode::Main => match mode {
            LauncherMode::Windows => PrefixIcon::LayoutDashboard,
            LauncherMode::Actions => PrefixIcon::Settings,
            LauncherMode::Search => PrefixIcon::Globe,
            _ => PrefixIcon::Search,
        },
        _ => if navigated {
            PrefixIcon::Back
        } else {
            match view {
                ViewMode::EmojiPicker => PrefixIcon::Search,
                ViewMode::ClipboardHistory => PrefixIcon::Copy,
                ViewMode::ThemePicker => PrefixIcon::Palette,
                _ => PrefixIcon::Bot,
            }
        },
    }
}

/// The icon in front of the search input.
pub fn input_prefix(view: ViewMode, mode: &LauncherMode, navigated_into_submenu: bool) -> (i: PrefixIcon)
    ensures
        i == input_prefix_spec(view, *mode, navigated_into_submenu),
{
    match view {
        ViewMode::Main => match mode {
            LauncherMode::Windows => PrefixIcon::LayoutDashboard,
            LauncherMode::Actions => PrefixIcon::Settings,
            LauncherMode::Search => PrefixIcon::Globe,
            _ => PrefixIcon::Search,
        },
        ViewMode::EmojiPicker => if navigated_into_submenu {
            PrefixIcon::Back
        } else {
            PrefixIcon::Search
        },
        ViewMode::ClipboardHistory => if navigated_into_submenu {
            PrefixIcon::Back
        } else {
            PrefixIcon::Copy
        },
        ViewMode::ThemePicker => if navigated_into_submenu {
            PrefixIcon::Back
        } else {
            PrefixIcon::Palette
        },
        ViewMode::AiResponse => if navigated_into_submenu {
            PrefixIcon::Back
        } else {
            PrefixIcon::Bot
        },
    }
}


/// What confirming an entry does.
#[derive(Debug, PartialEq, Eq)]
pub enum ConfirmEffect {
    /// Launch the application.
    LaunchApplication,
    /// Focus the window at this address.
    FocusWindow(String),
    /// Copy the calculation's result to the clipboard.
    CopyCalculation,
    /// Run the system action.
    ExecuteAction,
    /// Open the web search.
    OpenSearch,
    /// Nothing (submenus, AI questions and themes are handled by their views).
    Nothing,
}

/// What confirming `item` does.
pub fn confirm_effect(item: &ListItem) -> (e: ConfirmEffect)
    ensures
        match *item {
            ListItem::Application(_) => e == ConfirmEffect::LaunchApplication,
            ListItem::Window(w) => e matches ConfirmEffect::FocusWindow(a) && a@ == w.address@,
            ListItem::Calculator(_) => e == ConfirmEffect::CopyCalculation,
            ListItem::Action(_) => e == ConfirmEffect::ExecuteAction,
            ListItem::Search(_) => e == ConfirmEffect::OpenSearch,
            _ => e == ConfirmEffect::Nothing,
        },
{
    match item {
        ListItem::Application(_) => ConfirmEffect::LaunchApplication,
        ListItem::Window(w) => ConfirmEffect::FocusWindow(w.address.clone()),
        ListItem::Calculator(_) => ConfirmEffect::CopyCalculation,
        ListItem::Action(_) => ConfirmEffect::ExecuteAction,
        ListItem::Search(_) => ConfirmEffect::OpenSearch,
        _ => ConfirmEffect::Nothing,
    }
}

/// The launcher's state: its modes, the view it shows, whether that view was entered
/// from a submenu of the main list, and the items it was opened with.
#[derive(Debug)]
pub struct LauncherState {
    /// The modes and the current one.
    pub mode_state: ModeState,
    /// The view shown.
    pub view_mode: ViewMode,
    /// Whether the view was entered by confirming a submenu or AI entry.
    pub navigated_into_submenu: bool,
    /// The items the launcher was opened with.
    pub original_items: Vec<ListItem>,
}

/// What confirming does.
#[derive(Clone, Copy, Debug, PartialEq, Eq, Structural)]
pub enum ConfirmAction {
    /// In the main view: what confirming the selected entry does there.
    Main(MainConfirm),
    /// In the emoji picker or the clipboard history: the list confirms its selection.
    ConfirmInList,
    /// In the theme picker: the list confirms its selection and the picker closes.
    ConfirmThemeAndClose,
    /// In the AI view: the selected AI entry's question is sent again.
    AskAgain,
}

/// The launcher's view, submenu flag and action after confirming, where `selected` is
/// the main list's selected entry: a submenu opens its picker and an AI entry marks the
/// view as entered from a submenu (the AI view opens once its answer starts); a plain
/// entry leaves the view as it is; the theme picker closes to the main view.
pub open spec fn confirm_step_spec(view: ViewMode, navigated: bool, selected: Option<ListItem>) -> (
    ViewMode,
    bool,
    ConfirmAction,
) {
    match view {
        ViewMode::Main => {
            let c = main_confirm_spec(selected);
            match c {
                MainConfirm::OpenEmojis => (ViewMode::EmojiPicker, true, ConfirmAction::Main(c)),
                MainConfirm::OpenClipboard => (ViewMode::ClipboardHistory, true, ConfirmAction::Main(c)),
                MainConfirm::OpenThemes => (ViewMode::ThemePicker, true, ConfirmAction::Main(c)),
                MainConfirm::OpenAi => (ViewMode::Main, true, ConfirmAction::Main(c)),
                MainConfirm::ConfirmSelected => (ViewMode::Main, navigated, ConfirmAction::Main(c)),
            }
        },
        ViewMode::EmojiPicker => (view, navigated, ConfirmAction::ConfirmInList),
        ViewMode::ClipboardHistory => (view, navigated, ConfirmAction::ConfirmInList),
        ViewMode::ThemePicker => (ViewMode::Main, false, ConfirmAction::ConfirmThemeAndClose),
        ViewMode::AiResponse => (view, navigated, ConfirmAction::AskAgain),
    }
}

/// The view, submenu flag and action after going back: a closing picker or AI view
/// returns to the main view and clears the flag; otherwise nothing changes.
pub open spec fn back_step_spec(mode: LauncherMode, view: ViewMode, navigated: bool) -> (
    ViewMode,
    bool,
    BackAction,
) {
    let a = go_back_spec(mode, view);
    match a {
        BackAction::ExitEmojis => (ViewMode::Main, false, a),
        BackAction::ExitClipboard => (ViewMode::Main, false, a),
        BackAction::ExitThemes => (ViewMode::Main, false, a),
        BackAction::ExitAi => (ViewMode::Main, false, a),
        _ => (view, navigated, a),
    }
}

impl LauncherState {
    /// The state a launcher opens with: the modes with the first current, its view,
    /// no submenu entered, and the items.
    pub fn new(modes: Vec<LauncherMode>, items: Vec<ListItem>) -> (s: Self)
        requires
            modes.len() > 0,
        ensures
            s.mode_state.modes@ == modes@,
            s.mode_state.current_index == 0,
            s.mode_state.wf(),
            s.view_mode == initial_view_spec(modes@[0]),
            !s.navigated_into_submenu,
            s.original_items@ == items@,
    {
        let view_mode = initial_view_mode(&modes[0]);
        LauncherState {
            mode_state: ModeState::new(modes),
            view_mode,
            navigated_into_submenu: false,
            original_items: items,
        }
    }

    /// Confirm, with `selected` the main list's selected entry; gives what to do.
    pub fn confirm_step(&mut self, selected: &Option<ListItem>) -> (a: ConfirmAction)
        ensures
            (final(self).view_mode, final(self).navigated_into_submenu, a) == confirm_step_spec(
                old(self).view_mode,
                old(self).navigated_into_submenu,
                *selected,
            ),
            final(self).mode_state == old(self).mode_state,
            final(self).original_items@ == old(self).original_items@,
    {
        match self.view_mode {
            ViewMode::Main => {
                let c = main_confirm(selected);
                match c {
                    MainConfirm::OpenEmojis => {
                        self.navigated_into_submenu = true;
                        self.view_mode = ViewMode::EmojiPicker;
                    },
                    MainConfirm::OpenClipboard => {
                        self.navigated_into_submenu = true;
                        self.view_mode = ViewMode::ClipboardHistory;
                    },
                    MainConfirm::OpenThemes => {
                        self.navigated_into_submenu = true;
                        self.view_mode = ViewMode::ThemePicker;
                    },
                    MainConfirm::OpenAi => {
                        self.navigated_into_submenu = true;
                    },
                    MainConfirm::ConfirmSelected => {},
                }
                ConfirmAction::Main(c)
            },
            ViewMode::EmojiPicker | ViewMode::ClipboardHistory => ConfirmAction::ConfirmInList,
            ViewMode::ThemePicker => {
                self.view_mode = ViewMode::Main;
                self.navigated_into_submenu = false;
                ConfirmAction::ConfirmThemeAndClose
            },
            ViewMode::AiResponse => ConfirmAction::AskAgain,
        }
    }

    /// The AI view opens, once its answer has started.
    pub fn ai_view_opened(&mut self)
        ensures
            final(self).view_mode == ViewMode::AiResponse,
            final(self).navigated_into_submenu == old(self).navigated_into_submenu,
            final(self).mode_state == old(self).mode_state,
            final(self).original_items@ == old(self).original_items@,
    {
        self.view_mode = ViewMode::AiResponse;
    }

    /// Go back; gives what to do.
    pub fn back_step(&mut self) -> (a: BackAction)
        requires
            old(self).mode_state.wf(),
        ensures
            (final(self).view_mode, final(self).navigated_into_submenu, a) == back_step_spec(
                old(self).mode_state.modes@[old(self).mode_state.current_index as int],
                old(self).view_mode,
                old(self).navigated_into_submenu,
            ),
            final(self).mode_state == old(self).mode_state,
            final(self).original_items@ == old(self).original_items@,
    {
        let a = go_back_action(self.mode_state.current_mode(), self.view_mode);
        match a {
            BackAction::ExitEmojis | BackAction::ExitClipboard | BackAction::ExitThemes
            | BackAction::ExitAi => {
                self.view_mode = ViewMode::Main;
                self.navigated_into_submenu = false;
            },
            _ => {},
        }
        a
    }
}

/// In the combined mode, a picker opened from the main view by confirming a submenu
/// closes on going back, returning to the main view with the submenu flag cleared.
pub proof fn law_submenu_then_back(navigated: bool, selected: Option<ListItem>)
    requires
        confirm_step_spec(ViewMode::Main, navigated, selected).0 != ViewMode::Main,
    ensures
        ({
            let (v, n, _) = confirm_step_spec(ViewMode::Main, navigated, selected);
            let (v2, n2, _) = back_step_spec(LauncherMode::Combined, v, n);
            v2 == ViewMode::Main && !n2
        }),
{
}

/// Each single-module mode shows just the module of the same name, whatever the
/// combined view holds; every other mode shows the combined modules.
pub proof fn law_mode_modules(mode: LauncherMode, combined: Seq<ConfigModule>)
    ensures
        mode == LauncherMode::Applications ==> modules_for_mode_spec(mode, combined) == seq![
            ConfigModule::Applications,
        ],
        mode == LauncherMode::Windows ==> modules_for_mode_spec(mode, combined) == seq![
            ConfigModule::Windows,
        ],
        mode == LauncherMode::Actions ==> modules_for_mode_spec(mode, combined) == seq![
            ConfigModule::Actions,
        ],
        mode == LauncherMode::Search ==> modules_for_mode_spec(mode, combined) == seq![
            ConfigModule::Search,
        ],
        mode == LauncherMode::Calculator ==> modules_for_mode_spec(mode, combined) == seq![
            ConfigModule::Calculator,
        ],
        mode == LauncherMode::Combined || mode == LauncherMode::Emojis || mode
            == LauncherMode::Clipboard || mode == LauncherMode::Themes || mode == LauncherMode::Ai
            ==> modules_for_mode_spec(mode, combined) == combined,
{
}

/// The search input's placeholder names what each mode searches.
pub proof fn law_mode_placeholders(mode: LauncherMode)
    ensures
        mode == LauncherMode::Combined ==> placeholder_spec(mode) == "Search anything..."@,
        mode == LauncherMode::Applications ==> placeholder_spec(mode) == "Search applications..."@,
        mode == LauncherMode::Windows ==> placeholder_spec(mode) == "Search windows..."@,
        mode == LauncherMode::Actions ==> placeholder_spec(mode) == "Search actions..."@,
        mode == LauncherMode::Emojis ==> placeholder_spec(mode) == "Search emojis..."@,
        mode == LauncherMode::Clipboard ==> placeholder_spec(mode) == "Search clipboard..."@,
        mode == LauncherMode::Themes ==> placeholder_spec(mode) == "Search themes..."@,
        mode == LauncherMode::Ai ==> placeholder_spec(mode) == "Ask AI..."@,
        mode == LauncherMode::Search ==> placeholder_spec(mode) == "Search the web..."@,
        mode == LauncherMode::Calculator ==> placeholder_spec(mode) == "Calculate..."@,
{
}

/// A launcher opens on the picker of its first mode when that mode has one (emojis,
/// clipboard, themes, AI) and on the main list otherwise.
pub proof fn law_initial_views(mode: LauncherMode)
    ensures
        mode == LauncherMode::Emojis ==> initial_view_spec(mode) == ViewMode::EmojiPicker,
        mode == LauncherMode::Clipboard ==> initial_view_spec(mode) == ViewMode::ClipboardHistory,
        mode == LauncherMode::Themes ==> initial_view_spec(mode) == ViewMode::ThemePicker,
        mode == LauncherMode::Ai ==> initial_view_spec(mode) == ViewMode::AiResponse,
        mode != LauncherMode::Emojis && mode != LauncherMode::Clipboard && mode
            != LauncherMode::Themes && mode != LauncherMode::Ai ==> initial_view_spec(mode)
            == ViewMode::Main,
{
}

} // verus!
