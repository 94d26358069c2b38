use zlaunch::config::{AppConfig, ConfigModule, LauncherMode};
use zlaunch::items::{AiItem, ListItem, SubmenuItem};
use zlaunch::launcher::{
    ai_query_of, cancel_goes_back, confirm_effect, initial_view_mode, ConfirmEffect, input_prefix, PrefixIcon, entry_for_mode, go_back_action, main_confirm, modules_for_mode,
    navigation_step, placeholder_for_mode, switch_mode_next, switch_mode_prev, BackAction,
    ListMove, MainConfirm, ModeEntry, ModeState, NavKey, ScrollTo, ViewMode, DEFAULT_PLACEHOLDER,
    ConfirmAction, LauncherState,
};

#[test]
fn test_default_placeholder() {
    assert_eq!(DEFAULT_PLACEHOLDER, "Search applications...");
}

#[test]
fn mode_state_cycles_both_ways() {
    let mut s = ModeState::new(vec![
        LauncherMode::Combined,
        LauncherMode::Emojis,
        LauncherMode::Themes,
    ]);
    assert_eq!(*s.current_mode(), LauncherMode::Combined);
    assert!(s.has_multiple_modes());
    s.next_mode();
    assert_eq!(*s.current_mode(), LauncherMode::Emojis);
    s.next_mode();
    s.next_mode();
    assert_eq!(*s.current_mode(), LauncherMode::Combined);
    s.prev_mode();
    assert_eq!(*s.current_mode(), LauncherMode::Themes);
    s.next_mode();
    assert_eq!(s.current_index, 0);
}

#[test]
fn mode_state_default_is_combined_only() {
    let s = ModeState::default();
    assert_eq!(s.modes, vec![LauncherMode::Combined]);
    assert!(!s.has_multiple_modes());
}

#[test]
fn modules_and_placeholders_for_modes() {
    let config = AppConfig::default();
    assert_eq!(
        modules_for_mode(&LauncherMode::Windows, &config),
        vec![ConfigModule::Windows]
    );
    assert_eq!(modules_for_mode(&LauncherMode::Combined, &config).len(), 9);
    assert_eq!(placeholder_for_mode(&LauncherMode::Ai), "Ask AI...");
    assert_eq!(placeholder_for_mode(&LauncherMode::Search), "Search the web...");
    assert_eq!(entry_for_mode(&LauncherMode::Emojis), ModeEntry::Emojis);
    assert_eq!(entry_for_mode(&LauncherMode::Calculator), ModeEntry::MainList);
}

#[test]
fn confirm_opens_submenus_and_ai() {
    let emojis = ListItem::Submenu(SubmenuItem::grid("submenu-emojis", "Emojis", 8));
    assert_eq!(main_confirm(&Some(emojis)), MainConfirm::OpenEmojis);
    let themes = ListItem::Submenu(SubmenuItem::list("submenu-themes", "Themes"));
    assert_eq!(main_confirm(&Some(themes)), MainConfirm::OpenThemes);
    let other = ListItem::Submenu(SubmenuItem::list("submenu-other", "Other"));
    assert_eq!(main_confirm(&Some(other)), MainConfirm::ConfirmSelected);
    let ai = ListItem::Ai(AiItem::new("hi".to_string()));
    assert_eq!(main_confirm(&Some(ai)), MainConfirm::OpenAi);
    assert_eq!(main_confirm(&None), MainConfirm::ConfirmSelected);
}

#[test]
fn go_back_depends_on_direct_mode() {
    assert_eq!(go_back_action(&LauncherMode::Combined, ViewMode::Main), BackAction::Stay);
    assert_eq!(go_back_action(&LauncherMode::Windows, ViewMode::Main), BackAction::Hide);
    assert_eq!(
        go_back_action(&LauncherMode::Combined, ViewMode::EmojiPicker),
        BackAction::ExitEmojis
    );
    assert_eq!(
        go_back_action(&LauncherMode::Themes, ViewMode::ThemePicker),
        BackAction::RestoreThemeAndHide
    );
    assert_eq!(
        go_back_action(&LauncherMode::Emojis, ViewMode::AiResponse),
        BackAction::ExitAi
    );
    assert!(!cancel_goes_back(ViewMode::Main));
    assert!(cancel_goes_back(ViewMode::ClipboardHistory));
}

#[test]
fn mode_switching_needs_several_modes() {
    let mut single = ModeState::new(vec![LauncherMode::Combined]);
    assert!(!switch_mode_next(&mut single));
    assert_eq!(single.current_index, 0);
    let mut two = ModeState::new(vec![LauncherMode::Combined, LauncherMode::Ai]);
    assert!(switch_mode_prev(&mut two));
    assert_eq!(*two.current_mode(), LauncherMode::Ai);
    assert!(switch_mode_next(&mut two));
    assert_eq!(*two.current_mode(), LauncherMode::Combined);
}

#[test]
fn navigation_steps_per_view() {
    assert_eq!(
        navigation_step(ViewMode::Main, NavKey::Tab),
        Some((ListMove::Down, ScrollTo::SectionPath))
    );
    assert_eq!(
        navigation_step(ViewMode::EmojiPicker, NavKey::TabPrev),
        Some((ListMove::Left, ScrollTo::GridRow))
    );
    assert_eq!(
        navigation_step(ViewMode::EmojiPicker, NavKey::Prev),
        Some((ListMove::Up, ScrollTo::GridRow))
    );
    assert_eq!(
        navigation_step(ViewMode::ThemePicker, NavKey::Next),
        Some((ListMove::Down, ScrollTo::Index))
    );
    assert_eq!(navigation_step(ViewMode::AiResponse, NavKey::Next), None);
}

#[test]
fn ai_query_only_for_ai_entries() {
    let ai = Some(ListItem::Ai(AiItem::new("why?".to_string())));
    assert_eq!(ai_query_of(&ai), Some("why?".to_string()));
    let other = Some(ListItem::Submenu(SubmenuItem::list("x", "X")));
    assert_eq!(ai_query_of(&other), None);
    assert_eq!(ai_query_of(&None), None);
}

#[test]
fn initial_views_and_prefix_icons() {
    assert_eq!(initial_view_mode(&LauncherMode::Clipboard), ViewMode::ClipboardHistory);
    assert_eq!(initial_view_mode(&LauncherMode::Windows), ViewMode::Main);
    assert_eq!(input_prefix(ViewMode::Main, &LauncherMode::Windows, false), PrefixIcon::LayoutDashboard);
    assert_eq!(input_prefix(ViewMode::Main, &LauncherMode::Combined, true), PrefixIcon::Search);
    assert_eq!(input_prefix(ViewMode::ThemePicker, &LauncherMode::Combined, true), PrefixIcon::Back);
    assert_eq!(input_prefix(ViewMode::AiResponse, &LauncherMode::Ai, false), PrefixIcon::Bot);
}

#[test]
fn confirm_effects_by_kind() {
    let w = ListItem::Window(zlaunch::test_utils::mock_window("T", "t"));
    assert_eq!(confirm_effect(&w), ConfirmEffect::FocusWindow("0x12345".to_string()));
    let a = ListItem::Application(zlaunch::test_utils::mock_application("A"));
    assert_eq!(confirm_effect(&a), ConfirmEffect::LaunchApplication);
    let ai = ListItem::Ai(AiItem::new("q".to_string()));
    assert_eq!(confirm_effect(&ai), ConfirmEffect::Nothing);
}

#[test]
fn launcher_state_opens_with_first_mode_view() {
    let s = LauncherState::new(vec![LauncherMode::Emojis, LauncherMode::Combined], Vec::new());
    assert_eq!(s.view_mode, ViewMode::EmojiPicker);
    assert!(!s.navigated_into_submenu);
    assert_eq!(s.mode_state.current_index, 0);
    assert!(s.original_items.is_empty());
}

#[test]
fn confirming_emoji_submenu_opens_picker_and_back_returns() {
    let mut s = LauncherState::new(vec![LauncherMode::Combined], Vec::new());
    assert_eq!(s.view_mode, ViewMode::Main);
    let emojis = Some(ListItem::Submenu(SubmenuItem::grid("submenu-emojis", "Emojis", 8)));
    assert_eq!(s.confirm_step(&emojis), ConfirmAction::Main(MainConfirm::OpenEmojis));
    assert_eq!(s.view_mode, ViewMode::EmojiPicker);
    assert!(s.navigated_into_submenu);
    assert_eq!(s.confirm_step(&None), ConfirmAction::ConfirmInList);
    assert_eq!(s.view_mode, ViewMode::EmojiPicker);
    assert_eq!(s.back_step(), BackAction::ExitEmojis);
    assert_eq!(s.view_mode, ViewMode::Main);
    assert!(!s.navigated_into_submenu);
}

#[test]
fn confirming_plain_entry_keeps_main_view() {
    let mut s = LauncherState::new(vec![LauncherMode::Combined], Vec::new());
    let app = Some(ListItem::Application(zlaunch::test_utils::mock_application("Firefox")));
    assert_eq!(s.confirm_step(&app), ConfirmAction::Main(MainConfirm::ConfirmSelected));
    assert_eq!(s.view_mode, ViewMode::Main);
    assert!(!s.navigated_into_submenu);
}

#[test]
fn confirming_ai_entry_then_answer_opens_ai_view() {
    let mut s = LauncherState::new(vec![LauncherMode::Combined], Vec::new());
    let ai = Some(ListItem::Ai(AiItem::new("why".to_string())));
    assert_eq!(s.confirm_step(&ai), ConfirmAction::Main(MainConfirm::OpenAi));
    assert_eq!(s.view_mode, ViewMode::Main);
    assert!(s.navigated_into_submenu);
    s.ai_view_opened();
    assert_eq!(s.view_mode, ViewMode::AiResponse);
    assert_eq!(s.confirm_step(&None), ConfirmAction::AskAgain);
    assert_eq!(s.back_step(), BackAction::ExitAi);
    assert_eq!(s.view_mode, ViewMode::Main);
}

#[test]
fn confirming_in_theme_picker_closes_it() {
    let mut s = LauncherState::new(vec![LauncherMode::Themes], Vec::new());
    assert_eq!(s.view_mode, ViewMode::ThemePicker);
    assert_eq!(s.confirm_step(&None), ConfirmAction::ConfirmThemeAndClose);
    assert_eq!(s.view_mode, ViewMode::Main);
}
