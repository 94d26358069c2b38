use zlaunch::config::{ConfigModule, FuzzyMatchConfig};
use zlaunch::item_filter::ItemFilter;
use zlaunch::items::{ActionItem, ActionKind, ListItem};
use zlaunch::test_utils::{mock_application, mock_application_with_desc};

fn no_modules() -> Vec<ConfigModule> {
    Vec::new()
}

#[test]
fn test_empty_query_returns_all() {
    let filter = ItemFilter::default();
    let items: Vec<ListItem> = vec![];
    let result = filter.filter_indices(&items, "", &no_modules());
    assert!(result.is_empty());
}

#[test]
fn test_filter_new() {
    let filter = ItemFilter::default();
    // Just verify it constructs and matches without panic
    let items: Vec<ListItem> = vec![ListItem::Application(mock_application("test"))];
    let _ = filter.filter_indices(&items, "t", &no_modules());
}

#[test]
fn test_empty_query_returns_all_indices() {
    let filter = ItemFilter::default();
    let items: Vec<ListItem> = vec![
        ListItem::Application(mock_application("Firefox")),
        ListItem::Application(mock_application("Chrome")),
        ListItem::Application(mock_application("Code")),
    ];
    let result = filter.filter_indices(&items, "", &no_modules());
    assert_eq!(result, vec![0, 1, 2]);
}

#[test]
fn test_filter_by_name() {
    let filter = ItemFilter::default();
    let items: Vec<ListItem> = vec![
        ListItem::Application(mock_application("Firefox")),
        ListItem::Application(mock_application("Chrome")),
        ListItem::Application(mock_application("Code")),
    ];
    let result = filter.filter_indices(&items, "fire", &no_modules());
    assert_eq!(result.len(), 1);
    assert_eq!(result[0], 0); // Firefox
}

#[test]
fn test_filter_fuzzy_match() {
    let filter = ItemFilter::default();
    let items: Vec<ListItem> = vec![
        ListItem::Application(mock_application("Firefox")),
        ListItem::Application(mock_application("Files")),
        ListItem::Application(mock_application("Chrome")),
    ];
    // "ff" should match "Firefox" through fuzzy matching
    let result = filter.filter_indices(&items, "ff", &no_modules());
    assert!(!result.is_empty());
    // Firefox should be in results
    assert!(result.contains(&0));
}

#[test]
fn test_filter_by_description() {
    let filter = ItemFilter::default();
    let items: Vec<ListItem> = vec![
        ListItem::Application(mock_application_with_desc("App1", "Web Browser")),
        ListItem::Application(mock_application_with_desc("App2", "Text Editor")),
        ListItem::Application(mock_application_with_desc("App3", "File Manager")),
    ];
    let result = filter.filter_indices(&items, "browser", &no_modules());
    assert_eq!(result.len(), 1);
    assert_eq!(result[0], 0); // App1 with "Web Browser" description
}

#[test]
fn test_filter_no_matches() {
    let filter = ItemFilter::default();
    let items: Vec<ListItem> = vec![
        ListItem::Application(mock_application("Firefox")),
        ListItem::Application(mock_application("Chrome")),
    ];
    let result = filter.filter_indices(&items, "zzzznotfound", &no_modules());
    assert!(result.is_empty());
}

#[test]
fn test_filter_case_insensitive() {
    let filter = ItemFilter::default();
    let items: Vec<ListItem> = vec![
        ListItem::Application(mock_application("Firefox")),
        ListItem::Application(mock_application("Chrome")),
    ];
    // Test with lowercase query matching uppercase in name
    let result = filter.filter_indices(&items, "firefox", &no_modules());
    assert_eq!(result.len(), 1);
    assert_eq!(result[0], 0);
}

#[test]
fn test_filter_respects_module_order() {
    let filter = ItemFilter::default();
    let items: Vec<ListItem> = vec![
        ListItem::Application(mock_application("App Firefox")),
        ListItem::Application(mock_application("App Chrome")),
    ];
    // With Applications module first, both apps should match "App"
    let modules = vec![ConfigModule::Applications];
    let result = filter.filter_indices(&items, "App", &modules);
    assert_eq!(result.len(), 2);
}

#[test]
fn test_exact_match_beats_description_match() {
    let filter = ItemFilter::default();
    let items: Vec<ListItem> = vec![
        ListItem::Application(mock_application("Eden")),
        ListItem::Action(ActionItem::builtin(ActionKind::Logout)), // "End the session"
    ];
    // "eden" exactly matches the app name, but also fuzzy-matches "End the session"
    // The app should rank first due to exact match bonus
    let result = filter.filter_indices(&items, "eden", &no_modules());
    assert!(!result.is_empty());
    assert_eq!(result[0], 0); // Eden app should be first
}

#[test]
fn test_name_match_beats_description_match() {
    let filter = ItemFilter::default();
    let items: Vec<ListItem> = vec![
        ListItem::Application(mock_application_with_desc("Browser", "Web application")),
        ListItem::Application(mock_application_with_desc("Editor", "Browser for files")),
    ];
    // "browser" matches first item's name, second item's description
    // Name match should rank higher
    let result = filter.filter_indices(&items, "browser", &no_modules());
    assert_eq!(result.len(), 2);
    assert_eq!(result[0], 0); // Browser (name match) first
}

#[test]
fn test_contiguous_match_beats_scattered() {
    let filter = ItemFilter::default();
    let items: Vec<ListItem> = vec![
        ListItem::Application(mock_application("Firefox")), // fire = contiguous
        ListItem::Application(mock_application("FooInRExact")), // f-i-r-e = scattered
    ];
    let result = filter.filter_indices(&items, "fire", &no_modules());
    assert!(!result.is_empty());
    // Firefox should rank higher due to contiguous match
    assert_eq!(result[0], 0);
}

#[test]
fn test_prefix_match_bonus() {
    let filter = ItemFilter::default();
    let items: Vec<ListItem> = vec![
        ListItem::Application(mock_application("Firefox")),
        ListItem::Application(mock_application("Waterfox")),
    ];
    // "fire" is a prefix of Firefox but in the middle of Waterfox
    let result = filter.filter_indices(&items, "fire", &no_modules());
    assert!(!result.is_empty());
    // Firefox should rank higher due to prefix bonus
    assert_eq!(result[0], 0);
}

#[test]
fn test_action_score_multiplier() {
    // Test that the action multiplier is applied
    let filter = ItemFilter::default();

    let custom_action = ActionItem::new(
        "test-action".to_string(),
        "TestAction".to_string(),
        Some("A test action".to_string()),
        None,
        ActionKind::Command("echo test".to_string()),
    );

    let items: Vec<ListItem> = vec![
        ListItem::Application(mock_application("TestAction")), // Exact match
        ListItem::Action(custom_action),                       // Same exact match, but action
    ];

    // Both have exact match on "testaction", but action should score lower due to 0.8x multiplier
    let result = filter.filter_indices(&items, "testaction", &no_modules());
    assert_eq!(result.len(), 2);
    assert_eq!(result[0], 0); // App should be first due to action's 0.8x multiplier
}

#[test]
fn test_contiguity_bonus_calculation() {
    let filter = ItemFilter::default();

    // Fully contiguous: all adjacent
    let indices_contiguous = vec![0, 1, 2, 3];
    let bonus_contiguous = filter.calculate_contiguity_bonus(&indices_contiguous);

    // Scattered: no adjacent pairs
    let indices_scattered = vec![0, 5, 10, 15];
    let bonus_scattered = filter.calculate_contiguity_bonus(&indices_scattered);

    // Contiguous should get more bonus
    assert!(bonus_contiguous > bonus_scattered);
    assert_eq!(bonus_contiguous, filter.config.contiguity_bonus);
    assert_eq!(bonus_scattered, 0);
}

#[test]
fn test_word_prefix_bonus() {
    // "code" matches start of second word in "Visual Studio Code"
    assert!(zlaunch::item_filter::matches_word_start("Visual Studio Code", "code"));
    assert!(zlaunch::item_filter::matches_word_start("Visual Studio Code", "studio"));
    assert!(zlaunch::item_filter::matches_word_start("Visual Studio Code", "visual"));

    // "ode" doesn't match start of any word
    assert!(!zlaunch::item_filter::matches_word_start("Visual Studio Code", "ode"));
}

#[test]
fn test_custom_config() {
    let config = FuzzyMatchConfig {
        description_penalty_permille: 100,     // Very low description weight
        action_score_multiplier_permille: 500, // Very low action weight
        ..FuzzyMatchConfig::default()
    };
    let filter = ItemFilter::new(config);

    let items: Vec<ListItem> = vec![
        ListItem::Application(mock_application("TestApp")),
        ListItem::Action(ActionItem::builtin(ActionKind::Logout)),
    ];

    // With low action multiplier, even if "log" matches Logout better,
    // the multiplier should significantly reduce its score
    let result = filter.filter_indices(&items, "log", &no_modules());
    // Logout action should still match but with reduced score
    assert!(result.contains(&1));
}

#[test]
fn test_space_normalized_to_hyphen() {
    // Test that "counter strike" matches "Counter-Strike: Global Offensive"
    let filter = ItemFilter::default();
    let items: Vec<ListItem> = vec![ListItem::Application(mock_application(
        "Counter-Strike: Global Offensive",
    ))];

    // Should match with space in query even though name has hyphen
    let result = filter.filter_indices(&items, "counter strike", &no_modules());
    assert_eq!(
        result.len(),
        1,
        "Should match 'counter strike' to 'Counter-Strike'"
    );
    assert_eq!(result[0], 0);

    // Should also match without space
    let result2 = filter.filter_indices(&items, "counterstrike", &no_modules());
    assert_eq!(result2.len(), 1);

    // And with hyphen
    let result3 = filter.filter_indices(&items, "counter-strike", &no_modules());
    assert_eq!(result3.len(), 1);
}

#[test]
fn test_multi_word_query() {
    let filter = ItemFilter::default();
    let items: Vec<ListItem> = vec![
        ListItem::Application(mock_application("Visual Studio Code")),
        ListItem::Application(mock_application("Android Studio")),
    ];

    // "visual studio" should match "Visual Studio Code"
    let result = filter.filter_indices(&items, "visual studio", &no_modules());
    assert!(result.contains(&0), "Should match 'Visual Studio Code'");

    // "android studio" should match "Android Studio"
    let result2 = filter.filter_indices(&items, "android studio", &no_modules());
    assert!(result2.contains(&1), "Should match 'Android Studio'");
}

#[test]
fn filter_with_scores_orders_by_module_then_score() {
    let filter = ItemFilter::default();
    let items: Vec<ListItem> = vec![
        ListItem::Application(mock_application("Fire Tool")),
        ListItem::Action(ActionItem::builtin(ActionKind::Shutdown)),
        ListItem::Application(mock_application("Firefox")),
    ];
    let modules = vec![ConfigModule::Actions, ConfigModule::Applications];
    let result = filter.filter_with_scores(&items, "sh", &modules);
    assert_eq!(result.len(), 1);
    assert_eq!(result[0].index, 1);
    let result = filter.filter_with_scores(&items, "fire", &modules);
    assert_eq!(result.len(), 2);
    assert!(result[0].score >= result[1].score);
}

#[test]
fn empty_query_scores_zero() {
    let filter = ItemFilter::default();
    let items: Vec<ListItem> = vec![ListItem::Application(mock_application("Firefox"))];
    let result = filter.filter_with_scores(&items, "", &no_modules());
    assert_eq!(result.len(), 1);
    assert_eq!(result[0].index, 0);
    assert_eq!(result[0].score, 0);
}
