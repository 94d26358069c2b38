use zlaunch::config::ConfigModule;
use zlaunch::items::ListItem;
use zlaunch::test_utils::{
    mock_application, mock_application_with_desc, mock_applications, mock_config,
    mock_config_with_modules, mock_list_items, mock_search_provider, mock_window,
};

#[test]
fn test_mock_application() {
    let app = mock_application("Test App");
    assert_eq!(app.name, "Test App");
    assert_eq!(app.id, "app-test-app");
    assert!(app.description.is_some());
}

#[test]
fn test_mock_applications() {
    let apps = mock_applications();
    assert_eq!(apps.len(), 5);
    assert!(apps.iter().any(|a| a.name == "Firefox"));
}

#[test]
fn test_mock_list_items() {
    let items = mock_list_items();
    assert_eq!(items.len(), 5);
    assert!(matches!(items[0], ListItem::Application(_)));
}

#[test]
fn test_mock_window() {
    let window = mock_window("My Document", "code");
    assert_eq!(window.title, "My Document");
    assert_eq!(window.app_id, "code");
}

#[test]
fn test_mock_config() {
    let config = mock_config();
    assert_eq!(config.window_width, 600);
    assert_eq!(config.window_height, 400);
}

#[test]
fn test_mock_config_with_modules() {
    let config = mock_config_with_modules(vec![
        ConfigModule::Applications,
        ConfigModule::Calculator,
    ]);
    assert_eq!(config.combined_modules.unwrap().len(), 2);
}

#[test]
fn test_mock_search_provider() {
    let provider = mock_search_provider("Google", "!g");
    assert_eq!(provider.name, "Google");
    assert_eq!(provider.trigger, "!g");
    assert!(provider.url.contains("{query}"));
}

#[test]
fn mock_application_paths_use_the_slug() {
    let app = mock_application("Visual Studio Code");
    assert_eq!(app.command, "/usr/bin/visual-studio-code");
    assert_eq!(
        app.desktop_path,
        "/usr/share/applications/visual-studio-code.desktop"
    );
    assert_eq!(app.description.as_deref(), Some("Visual Studio Code application"));
}

#[test]
fn mock_application_with_desc_keeps_description() {
    let app = mock_application_with_desc("Files", "File Manager");
    assert_eq!(app.id, "app-files");
    assert_eq!(app.description.as_deref(), Some("File Manager"));
}

#[test]
fn mock_window_fields() {
    let w = mock_window("My Document", "code");
    assert_eq!(w.id, "window-my-document");
    assert_eq!(w.address, "0x12345");
    assert_eq!(w.app_name, "code");
    assert_eq!(w.workspace, 1);
    assert!(!w.focused);
}

#[test]
fn mock_search_provider_url() {
    let p = mock_search_provider("DuckDuckGo", "!d");
    assert_eq!(p.url, "https://duckduckgo.example.com/search?q={query}");
    assert_eq!(p.icon, "magnifying-glass");
}
