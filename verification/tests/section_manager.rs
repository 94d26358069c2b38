use zlaunch::config::ConfigModule;
use zlaunch::item_filter::FilteredItem;
use zlaunch::items::ListItem;
use zlaunch::section_manager::{SectionInfo, SectionManager, SectionType};
use zlaunch::test_utils::{mock_application, mock_window};

#[test]
fn test_section_type_title() {
    assert_eq!(SectionType::BestMatch.title(), "Best Match");
    assert_eq!(SectionType::Calculator.title(), "Calculator");
    assert_eq!(SectionType::Windows.title(), "Windows");
    assert_eq!(SectionType::SearchAndAi.title(), "Search and AI");
}

#[test]
fn test_section_info_compute() {
    // Empty case
    let info = SectionInfo::compute(&[], &[]);
    assert_eq!(info.window_count, 0);
    assert_eq!(info.app_count, 0);
}

#[test]
fn test_best_match_disabled() {
    let manager = SectionManager::new(
        vec![ConfigModule::Windows, ConfigModule::Applications],
        false,
    );
    assert!(!manager.has_best_match());
}

#[test]
fn test_best_match_promotion() {
    // Setup: Windows first, then Applications
    let mut manager = SectionManager::new(
        vec![ConfigModule::Windows, ConfigModule::Applications],
        true, // best match enabled
    );

    let items: Vec<ListItem> = vec![
        ListItem::Window(mock_window("GitHub - Firefox", "firefox")),
        ListItem::Application(mock_application("Firefox")),
    ];

    // Simulate filtered results where App has higher score
    let filtered = vec![
        FilteredItem {
            index: 0,
            score: 50,
        }, // Window, low score
        FilteredItem {
            index: 1,
            score: 150,
        }, // App, high score (best match)
    ];

    manager.update_with_scores(&items, &filtered, false, false, 0);

    // Best match should be detected (App from Applications section)
    assert!(manager.has_best_match());
    assert_eq!(manager.best_match_filtered_pos(), Some(1));
    assert_eq!(
        manager.best_match_original_section(),
        Some(SectionType::Applications)
    );

    // Section order should be: BestMatch, Windows, Applications
    let sections = manager.ordered_section_types();
    assert_eq!(sections[0], SectionType::BestMatch);
    assert!(sections.contains(&SectionType::Windows));
    assert!(sections.contains(&SectionType::Applications));
}

#[test]
fn test_best_match_already_first() {
    // Setup: Windows first, then Applications
    let mut manager = SectionManager::new(
        vec![ConfigModule::Windows, ConfigModule::Applications],
        true,
    );

    let items: Vec<ListItem> = vec![
        ListItem::Window(mock_window("Firefox - Window", "firefox")),
        ListItem::Application(mock_application("Chrome")),
    ];

    // Window has highest score and is already in first section
    let filtered = vec![
        FilteredItem {
            index: 0,
            score: 150,
        }, // Window, high score
        FilteredItem {
            index: 1,
            score: 50,
        }, // App, low score
    ];

    manager.update_with_scores(&items, &filtered, false, false, 0);

    // No best match promotion needed
    assert!(!manager.has_best_match());
    assert_eq!(manager.best_match_filtered_pos(), None);
}

#[test]
fn test_best_match_empty_query() {
    let mut manager = SectionManager::new(
        vec![ConfigModule::Windows, ConfigModule::Applications],
        true,
    );

    let items: Vec<ListItem> = vec![
        ListItem::Window(mock_window("Window", "window")),
        ListItem::Application(mock_application("App")),
    ];

    // Empty query: all scores are 0
    let filtered = vec![
        FilteredItem { index: 0, score: 0 },
        FilteredItem { index: 1, score: 0 },
    ];

    manager.update_with_scores(&items, &filtered, false, false, 0);

    // No promotion for empty query
    assert!(!manager.has_best_match());
}

#[test]
fn test_section_item_count_with_best_match() {
    let mut manager = SectionManager::new(
        vec![ConfigModule::Windows, ConfigModule::Applications],
        true,
    );

    let items: Vec<ListItem> = vec![
        ListItem::Window(mock_window("Window 1", "window")),
        ListItem::Application(mock_application("App 1")),
        ListItem::Application(mock_application("App 2")),
    ];

    // App 1 has highest score
    let filtered = vec![
        FilteredItem {
            index: 0,
            score: 50,
        },
        FilteredItem {
            index: 1,
            score: 150,
        }, // Best match
        FilteredItem {
            index: 2,
            score: 100,
        },
    ];

    manager.update_with_scores(&items, &filtered, false, false, 0);

    assert!(manager.has_best_match());
    // BestMatch section has 1 item
    assert_eq!(manager.section_item_count(SectionType::BestMatch), 1);
    // Windows still has 1 item
    assert_eq!(manager.section_item_count(SectionType::Windows), 1);
    // Applications has 2 - 1 (promoted) = 1 item
    assert_eq!(manager.section_item_count(SectionType::Applications), 1);
}

#[test]
fn section_indices_roundtrip() {
    let mut manager = SectionManager::new(
        vec![
            ConfigModule::Calculator,
            ConfigModule::Windows,
            ConfigModule::Applications,
            ConfigModule::Search,
        ],
        false,
    );
    let items: Vec<ListItem> = vec![
        ListItem::Window(mock_window("W", "w")),
        ListItem::Application(mock_application("A1")),
        ListItem::Application(mock_application("A2")),
    ];
    manager.update(&items, &[0, 1, 2], true, false, 2);
    assert_eq!(
        manager.ordered_section_types(),
        vec![
            SectionType::Calculator,
            SectionType::Windows,
            SectionType::Applications,
            SectionType::SearchAndAi
        ]
    );
    assert_eq!(manager.sections_count(), 4);
    assert_eq!(manager.section_start_index(SectionType::Applications), 2);
    assert_eq!(manager.section_start_index(SectionType::SearchAndAi), 4);
    assert_eq!(manager.section_row_to_global(2, 1), 3);
    for g in 0..6 {
        let (s, r) = manager.global_to_index_path(g).unwrap();
        assert_eq!(manager.section_row_to_global(s, r), g);
    }
    assert_eq!(manager.global_to_index_path(6), None);
}

#[test]
fn section_type_at_past_the_end_is_applications() {
    let manager = SectionManager::new(vec![ConfigModule::Windows], false);
    assert_eq!(manager.section_type_at(7), SectionType::Applications);
    assert_eq!(manager.sections_count(), 0);
}

#[test]
fn index_paths_round_trip_when_best_match_empties_a_section() {
    let mut manager = SectionManager::new(
        vec![ConfigModule::Windows, ConfigModule::Applications, ConfigModule::Actions],
        true,
    );
    let items: Vec<ListItem> = vec![
        ListItem::Window(mock_window("Terminal", "kitty")),
        ListItem::Application(mock_application("Firefox")),
        ListItem::Action(zlaunch::items::ActionItem::builtins()[0].clone()),
    ];
    let filtered = vec![
        FilteredItem { index: 0, score: 50 },
        FilteredItem { index: 1, score: 150 },
        FilteredItem { index: 2, score: 10 },
    ];
    manager.update_with_scores(&items, &filtered, false, false, 0);
    assert!(manager.has_best_match());
    let total: usize = (0..manager.sections_count())
        .map(|s| manager.section_item_count(manager.section_type_at(s)))
        .sum();
    assert_eq!(total, 3);
    for g in 0..total {
        let (s, r) = manager.global_to_index_path(g).unwrap();
        assert_eq!(manager.section_row_to_global(s, r), g);
        assert!(r < manager.section_item_count(manager.section_type_at(s)));
    }
    assert_eq!(manager.global_to_index_path(total), None);
}

#[test]
fn best_match_keeps_the_total_item_count() {
    let modules = vec![ConfigModule::Windows, ConfigModule::Applications, ConfigModule::Actions];
    let items: Vec<ListItem> = vec![
        ListItem::Window(mock_window("Terminal", "kitty")),
        ListItem::Application(mock_application("Firefox")),
        ListItem::Application(mock_application("Files")),
        ListItem::Action(zlaunch::items::ActionItem::builtins()[0].clone()),
    ];
    let filtered = vec![
        FilteredItem { index: 0, score: 50 },
        FilteredItem { index: 1, score: 150 },
        FilteredItem { index: 2, score: 20 },
        FilteredItem { index: 3, score: 10 },
    ];
    let total = |m: &SectionManager| -> usize {
        m.ordered_section_types().iter().map(|t| m.section_item_count(*t)).sum()
    };
    let mut plain = SectionManager::new(modules.clone(), false);
    plain.update_with_scores(&items, &filtered, false, false, 0);
    let mut promoted = SectionManager::new(modules, true);
    promoted.update_with_scores(&items, &filtered, false, false, 0);
    assert!(promoted.has_best_match());
    assert_eq!(total(&plain), 4);
    assert_eq!(total(&promoted), 4);
}
