use zlaunch::emoji_delegate::{EmojiGridDelegate, EmojiItem};
use zlaunch::items::{ListItem, ThemeItem};
use zlaunch::item_list::ItemListDelegate as PlainListDelegate;
use zlaunch::theme_delegate::{order_themes, ThemeListDelegate};
use zlaunch::test_utils::{mock_application, mock_window};

fn emojis(n: usize) -> Vec<EmojiItem> {
    (0..n)
        .map(|i| EmojiItem { emoji: format!("e{}", i), name: format!("Name {}", i) })
        .collect()
}

#[test]
fn emoji_grid_moves_by_rows_and_wraps() {
    // 10 emojis in 4 columns: rows [0..4), [4..8), [8..10)
    let mut d = EmojiGridDelegate::new(emojis(10), 4);
    assert_eq!(d.row_count(), 3);
    d.select_down();
    assert_eq!(d.selected_index(), Some(4));
    d.select_down();
    assert_eq!(d.selected_index(), Some(8));
    d.select_down();
    assert_eq!(d.selected_index(), Some(0));
    d.set_selected_row(Some(0));
    d.select_right();
    d.select_right();
    d.select_right();
    assert_eq!(d.selected_index(), Some(3));
    // column 3 has no entry in the last row: up goes to the row before
    d.select_up();
    assert_eq!(d.selected_index(), Some(7));
    d.select_down();
    assert_eq!(d.selected_index(), Some(3));
    assert_eq!(d.selected_row(), Some(0));
    d.select_left();
    assert_eq!(d.selected_index(), Some(2));
}

#[test]
fn emoji_grid_rows_and_filter() {
    let mut d = EmojiGridDelegate::new(emojis(10), 4);
    let row = d.emojis_for_row(2);
    assert_eq!(row.len(), 2);
    assert_eq!(row[0].emoji, "e8");
    assert!(d.emojis_for_row(3).is_empty());
    d.set_query("NAME 1".to_string());
    assert_eq!(d.filtered_count(), 1);
    assert_eq!(d.get_item_at(0).unwrap().emoji, "e1");
    d.set_query("e9".to_string());
    assert_eq!(d.filtered_count(), 1);
    assert_eq!(d.do_confirm().unwrap().name, "Name 9");
    d.clear_query();
    assert_eq!(d.filtered_count(), 10);
}

#[test]
fn theme_list_filters_by_name_or_description() {
    let themes = vec![
        ThemeItem { name: "Dracula".to_string(), description: "Dark purple".to_string() },
        ThemeItem { name: "Solarized".to_string(), description: "Light and dark".to_string() },
        ThemeItem { name: "Nord".to_string(), description: "Arctic blue".to_string() },
    ];
    let mut d = ThemeListDelegate::new(themes);
    d.set_query("DARK".to_string());
    assert_eq!(d.filtered_count(), 2);
    assert_eq!(d.get_item_at(1).unwrap().name, "Solarized");
    d.select_down();
    assert_eq!(d.selected_item().unwrap().name, "Solarized");
    d.select_down();
    assert_eq!(d.do_confirm().unwrap().name, "Dracula");
    d.set_query(String::new());
    assert_eq!(d.filtered_count(), 3);
    assert_eq!(d.items().len(), 3);
}

#[test]
fn plain_list_ranks_windows_first() {
    let items = vec![
        ListItem::Application(mock_application("Firefox")),
        ListItem::Window(mock_window("Firefox - Docs", "firefox")),
        ListItem::Application(mock_application("Chrome")),
    ];
    let all = PlainListDelegate::filter_items_sync(&items, "");
    assert_eq!(all, vec![1, 0, 2]);
    let fire = PlainListDelegate::filter_items_sync(&items, "fire");
    assert_eq!(fire[0], 1);
    assert!(fire.contains(&0));
    assert!(!fire.contains(&2));

    let mut d = PlainListDelegate::new(items);
    assert_eq!(d.sections_count(), 2);
    d.set_query("chrome".to_string());
    assert_eq!(d.filtered_count(), 1);
    assert_eq!(d.sections_count(), 1);
    assert_eq!(d.section_header(0), None);
    assert_eq!(d.do_confirm().unwrap().name(), "Chrome");
    d.set_query_only("x".to_string());
    d.apply_filter_results("y".to_string(), vec![]);
    assert_eq!(d.filtered_count(), 1);
    d.apply_filter_results("x".to_string(), vec![0, 1]);
    assert_eq!(d.filtered_count(), 2);
    assert_eq!(d.global_to_section_row(1), (1, 0));
    assert_eq!(d.section_row_to_global(1, 0), 1);
    assert_eq!(d.section_header(1), Some("Applications"));
}

fn theme(name: &str, description: &str) -> ThemeItem {
    ThemeItem { name: name.to_string(), description: description.to_string() }
}

#[test]
fn themes_list_current_first_then_by_name() {
    let themes = vec![
        theme("nord", "Arctic blue"),
        theme("dracula", "Dark purple"),
        theme("tokyo-night", "Night"),
        theme("catppuccin-mocha", "Pastel"),
        theme("Solarized", "Light and dark"),
    ];
    let ordered = order_themes(themes, "tokyo-night");
    let names: Vec<&str> = ordered.iter().map(|t| t.name.as_str()).collect();
    assert_eq!(names, vec!["tokyo-night", "Solarized", "catppuccin-mocha", "dracula", "nord"]);
}

#[test]
fn themes_of_one_name_keep_their_order() {
    let themes = vec![
        theme("b", "first b"),
        theme("a", "only a"),
        theme("b", "second b"),
    ];
    let ordered = order_themes(themes, "none");
    let descs: Vec<&str> = ordered.iter().map(|t| t.description.as_str()).collect();
    assert_eq!(descs, vec!["only a", "first b", "second b"]);
}
