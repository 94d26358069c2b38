use zlaunch::launcher::{main_list_confirm, navigate_main_list, selected_ai_query, MainConfirm, NavKey};
use zlaunch::config::{AppConfig, ConfigModule, FuzzyMatchConfig};
use zlaunch::item_delegate::ItemListDelegate;
use zlaunch::items::{CalculatorItem, ListItem};
use zlaunch::search::get_providers;
use zlaunch::test_utils::{mock_application, mock_window};

fn sample_items() -> Vec<ListItem> {
    vec![
        ListItem::Application(mock_application("Firefox")),
        ListItem::Window(mock_window("Terminal window", "kitty")),
        ListItem::Application(mock_application("Files")),
    ]
}

fn delegate(modules: Vec<ConfigModule>) -> ItemListDelegate {
    ItemListDelegate::new(
        sample_items(),
        modules,
        true,
        false,
        get_providers(&AppConfig::default()),
        FuzzyMatchConfig::default(),
    )
}

#[test]
fn new_orders_by_module_and_adds_builtins() {
    let d = delegate(vec![
        ConfigModule::Windows,
        ConfigModule::Applications,
        ConfigModule::Actions,
    ]);
    let names: Vec<&str> = d.items().iter().map(|i| i.name()).collect();
    assert_eq!(
        names,
        vec!["Terminal window", "Firefox", "Files", "Shut Down", "Reboot", "Suspend", "Log Out", "Lock Screen"]
    );
    assert_eq!(d.filtered_count(), 8);
    assert_eq!(d.selected_index(), Some(0));
    assert_eq!(d.sections_count(), 3);
    assert_eq!(d.items_count(0), 1);
    assert_eq!(d.items_count(1), 2);
    assert_eq!(d.section_header(0), Some("Windows"));
}

#[test]
fn new_drops_items_of_disabled_modules() {
    let d = delegate(vec![ConfigModule::Applications, ConfigModule::Emojis]);
    let names: Vec<&str> = d.items().iter().map(|i| i.name()).collect();
    assert_eq!(names, vec!["Firefox", "Files", "Emojis"]);
}

#[test]
fn get_item_at_walks_sections() {
    let d = delegate(vec![ConfigModule::Windows, ConfigModule::Applications]);
    assert_eq!(d.get_item_at(0).unwrap().name(), "Terminal window");
    assert_eq!(d.get_item_at(2).unwrap().name(), "Files");
    assert!(d.get_item_at(3).is_none());
    assert_eq!(d.global_to_index_path(2), Some((1, 1)));
    assert_eq!(d.section_row_to_global(1, 1), 2);
}

#[test]
fn set_query_filters_and_adds_dynamic_items() {
    let mut d = ItemListDelegate::new(
        sample_items(),
        vec![
            ConfigModule::Calculator,
            ConfigModule::Windows,
            ConfigModule::Applications,
            ConfigModule::Search,
        ],
        false,
        false,
        get_providers(&AppConfig::default()),
        FuzzyMatchConfig::default(),
    );
    d.set_query("fire".to_string(), None);
    assert_eq!(d.query(), "fire");
    // Firefox, then one search per provider.
    assert_eq!(d.filtered_count(), 5);
    assert_eq!(d.get_item_at(0).unwrap().name(), "Firefox");
    assert!(matches!(d.get_item_at(1), Some(ListItem::Search(_))));
    assert_eq!(d.selected_index(), Some(0));
    d.select_up();
    assert_eq!(d.selected_index(), Some(4));
    d.select_down();
    assert_eq!(d.selected_index(), Some(0));

    let calc = CalculatorItem {
        id: "calc".to_string(),
        expression: "1+1".to_string(),
        display_result: "2".to_string(),
        clipboard_result: Some("2".to_string()),
        is_error: false,
    };
    d.set_query("1+1".to_string(), Some(calc));
    assert!(matches!(d.get_item_at(0), Some(ListItem::Calculator(_))));
    assert!(matches!(d.do_confirm(), Some(ListItem::Calculator(_))));

    d.clear_query();
    assert_eq!(d.query(), "");
    assert_eq!(d.filtered_count(), 3);
}

#[test]
fn set_selected_ignores_positions_past_the_end() {
    let mut d = delegate(vec![ConfigModule::Windows, ConfigModule::Applications]);
    d.set_selected(2);
    assert_eq!(d.selected_index(), Some(2));
    d.set_selected(3);
    assert_eq!(d.selected_index(), Some(2));
    d.set_selected_index_path(Some((1, 0)));
    assert_eq!(d.selected_index(), Some(1));
    let (g, selected, item) = d.item_at_index_path(1, 0).unwrap();
    assert_eq!(g, 1);
    assert!(selected);
    assert_eq!(item.name(), "Firefox");
}

#[test]
fn calculator_result_is_reached_once() {
    let mut d = ItemListDelegate::new(
        sample_items(),
        vec![ConfigModule::Calculator, ConfigModule::Applications],
        false,
        false,
        Vec::new(),
        FuzzyMatchConfig::default(),
    );
    let calc = CalculatorItem {
        id: "calc".to_string(),
        expression: "2*3".to_string(),
        display_result: "6".to_string(),
        clipboard_result: None,
        is_error: false,
    };
    d.set_query("2*3".to_string(), Some(calc));
    // the result stands first, once; its section is not scanned again
    assert_eq!(d.filtered_count(), 1);
    assert!(matches!(d.get_item_at(0), Some(ListItem::Calculator(_))));
    assert!(d.get_item_at(1).is_none());
    let entries = (0..d.filtered_count()).filter(|&i| d.get_item_at(i).is_some()).count();
    assert_eq!(entries, d.filtered_count());
}

#[test]
fn entries_stop_at_the_section_total() {
    let d = delegate(vec![ConfigModule::Windows, ConfigModule::Applications]);
    let total = d.items_count(0) + d.items_count(1);
    assert_eq!(total, 3);
    for g in 0..total {
        assert!(d.get_item_at(g).is_some());
    }
    assert!(d.get_item_at(total).is_none());
}

#[test]
fn navigation_keys_move_and_report_the_scroll_position() {
    let mut d = delegate(vec![ConfigModule::Windows, ConfigModule::Applications]);
    assert_eq!(d.selected_index(), Some(0));
    assert_eq!(navigate_main_list(&mut d, NavKey::Next), Some((1, 0)));
    assert_eq!(d.selected_index(), Some(1));
    assert_eq!(navigate_main_list(&mut d, NavKey::Tab), Some((1, 1)));
    assert_eq!(d.selected_index(), Some(2));
    assert_eq!(navigate_main_list(&mut d, NavKey::Tab), Some((0, 0)));
    assert_eq!(d.selected_index(), Some(0));
    assert_eq!(navigate_main_list(&mut d, NavKey::TabPrev), Some((1, 1)));
    assert_eq!(d.selected_index(), Some(2));
    assert_eq!(navigate_main_list(&mut d, NavKey::Prev), Some((1, 0)));
    assert_eq!(d.selected_index(), Some(1));
}

#[test]
fn ai_question_comes_from_the_selected_ai_entry() {
    let mut d = ItemListDelegate::new(
        sample_items(),
        vec![ConfigModule::Applications, ConfigModule::Search, ConfigModule::Ai],
        false,
        true,
        get_providers(&AppConfig::default()),
        FuzzyMatchConfig::default(),
    );
    d.set_query("what is rust".to_string(), None);
    let search_index = (0..d.filtered_count())
        .find(|&i| matches!(d.get_item_at(i), Some(ListItem::Search(_))))
        .unwrap();
    d.set_selected(search_index);
    assert_eq!(selected_ai_query(&d), None);
    assert_eq!(main_list_confirm(&d), MainConfirm::ConfirmSelected);
    let ai_index = (0..d.filtered_count())
        .find(|&i| matches!(d.get_item_at(i), Some(ListItem::Ai(_))))
        .unwrap();
    d.set_selected(ai_index);
    assert_eq!(selected_ai_query(&d), Some("what is rust".to_string()));
    assert_eq!(main_list_confirm(&d), MainConfirm::OpenAi);
}
