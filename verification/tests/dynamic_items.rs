use zlaunch::config::AppConfig;
use zlaunch::dynamic_items::DynamicItems;
use zlaunch::items::CalculatorItem;
use zlaunch::search::get_providers;

fn calc(expression: &str, result: &str) -> CalculatorItem {
    CalculatorItem {
        id: "calc".to_string(),
        expression: expression.to_string(),
        display_result: result.to_string(),
        clipboard_result: Some(result.to_string()),
        is_error: false,
    }
}

#[test]
fn test_new_is_empty() {
    let items = DynamicItems::new();
    assert_eq!(items.count(), 0);
    assert!(!items.has_calculator());
    assert!(!items.has_ai());
    assert_eq!(items.search_count(), 0);
}

#[test]
fn test_clear() {
    let mut items = DynamicItems::new();
    items.calculator_item = Some(CalculatorItem {
        id: "calc".to_string(),
        expression: "2+2".to_string(),
        display_result: "4".to_string(),
        clipboard_result: Some("4".to_string()),
        is_error: false,
    });
    assert!(items.has_calculator());

    items.clear();
    assert!(!items.has_calculator());
}

#[test]
fn test_process_empty_query() {
    let mut items = DynamicItems::new();
    let providers = get_providers(&AppConfig::default());
    items.process_query("", true, true, true, &providers, None);
    assert_eq!(items.count(), 0);
}

#[test]
fn test_calculator_detection() {
    let mut items = DynamicItems::new();
    let providers = get_providers(&AppConfig::default());
    // Enable calculator, disable AI and search
    items.process_query("2+2", true, false, false, &providers, Some(calc("2+2", "4")));
    assert!(items.has_calculator());
    assert!(!items.has_ai());
}

#[test]
fn process_query_without_digits_drops_calculation() {
    let mut items = DynamicItems::new();
    let providers = get_providers(&AppConfig::default());
    items.process_query("abc", true, false, false, &providers, Some(calc("abc", "0")));
    assert!(!items.has_calculator());
    assert_eq!(items.count(), 0);
}

#[test]
fn process_query_fallback_adds_every_provider_and_ai() {
    let mut items = DynamicItems::new();
    let providers = get_providers(&AppConfig::default());
    items.process_query("  rust book ", false, true, true, &providers, None);
    assert!(items.has_ai());
    assert_eq!(items.ai_item.as_ref().unwrap().query, "rust book");
    assert_eq!(items.search_count(), 4);
    assert_eq!(items.search_items[0].query, "rust book");
    assert_eq!(items.search_items[3].provider.name, "YouTube");
    assert_eq!(items.count(), 5);
}

#[test]
fn process_query_ai_trigger() {
    let mut items = DynamicItems::new();
    let providers = get_providers(&AppConfig::default());
    items.process_query("!ai  what is rust ", false, true, true, &providers, None);
    assert_eq!(items.ai_item.as_ref().unwrap().query, "what is rust");
    assert_eq!(items.search_count(), 0);

    items.process_query("!ai   ", false, true, true, &providers, None);
    assert!(!items.has_ai());
    assert_eq!(items.count(), 0);
}

#[test]
fn process_query_search_trigger_gives_one_search() {
    let mut items = DynamicItems::new();
    let providers = get_providers(&AppConfig::default());
    items.process_query("!wiki rust", false, true, true, &providers, None);
    assert!(!items.has_ai());
    assert_eq!(items.search_count(), 1);
    assert_eq!(items.search_items[0].provider.name, "Wikipedia");
    assert_eq!(items.search_items[0].query, "rust");
}
