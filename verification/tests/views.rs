use zlaunch::ai_view::{ai_stream_step, send_follow_up, AiResponseView, ChatRole};
use zlaunch::clipboard_view::{format_timestamp, parse_file_url};
use zlaunch::icon::{get_icon_theme, gtk_icon_theme, kde_icon_theme, resolve_icon_internal, IconLookup};

#[test]
fn kde_theme_is_read_from_icons_section() {
    let content = "[General]\nTheme=Wrong\n\n[Icons]\r\n  Theme=Papirus-Dark  \n[KDE]\nTheme=Other\n";
    assert_eq!(kde_icon_theme(content), Some("Papirus-Dark".to_string()));
    assert_eq!(kde_icon_theme("[General]\nTheme=X\n"), None);
    assert_eq!(kde_icon_theme("[Icons]\nTheme=Theme=Y"), Some("Y".to_string()));
}

#[test]
fn gtk_theme_is_first_key_line() {
    let content = "[Settings]\ngtk-theme-name=Adwaita\ngtk-icon-theme-name=Papirus\n";
    assert_eq!(gtk_icon_theme(content), Some("Papirus".to_string()));
    assert_eq!(gtk_icon_theme(""), None);
}

#[test]
fn icon_theme_prefers_kde_then_gtk3_then_gtk4() {
    let kde = "[Icons]\nTheme=Breeze\n";
    let gtk3 = "gtk-icon-theme-name=Adwaita\n";
    let gtk4 = "gtk-icon-theme-name=Yaru\n";
    assert_eq!(get_icon_theme(Some(kde), Some(gtk3), Some(gtk4)), Some("Breeze".to_string()));
    assert_eq!(get_icon_theme(Some("[Icons]\n"), Some(gtk3), Some(gtk4)), Some("Adwaita".to_string()));
    assert_eq!(get_icon_theme(None, None, Some(gtk4)), Some("Yaru".to_string()));
    assert_eq!(get_icon_theme(None, None, None), None);
}

#[test]
fn icon_lookup_order() {
    assert!(matches!(resolve_icon_internal("/usr/share/x.png", None), IconLookup::Absolute));
    match resolve_icon_internal("firefox", Some("Papirus".to_string())) {
        IconLookup::Themes(v) => assert_eq!(
            v,
            vec![Some("Papirus".to_string()), Some("hicolor".to_string()), None]
        ),
        _ => panic!("expected theme lookups"),
    }
    match resolve_icon_internal("firefox", None) {
        IconLookup::Themes(v) => assert_eq!(v, vec![Some("hicolor".to_string()), None]),
        _ => panic!("expected theme lookups"),
    }
}

#[test]
fn file_urls_are_decoded() {
    assert_eq!(
        parse_file_url("  file:///home/me/My%20File.txt "),
        Some("/home/me/My File.txt".to_string())
    );
    assert_eq!(parse_file_url("file:///a%2"), Some("/a%2".to_string()));
    assert_eq!(parse_file_url("file:///bad%FF"), Some("/bad%FF".to_string()));
    assert_eq!(parse_file_url("http://x"), None);
}

#[test]
fn timestamps_read_as_ages() {
    assert_eq!(format_timestamp(Some(5)), "Just now");
    assert_eq!(format_timestamp(Some(60)), "1 min ago");
    assert_eq!(format_timestamp(Some(125)), "2 mins ago");
    assert_eq!(format_timestamp(Some(3600)), "1 hour ago");
    assert_eq!(format_timestamp(Some(86399)), "23 hours ago");
    assert_eq!(format_timestamp(Some(86400)), "Earlier");
    assert_eq!(format_timestamp(None), "Earlier");
}

#[test]
fn ai_view_streams_into_last_reply() {
    let mut v = AiResponseView::new("What is Rust?".to_string());
    assert!(v.is_streaming());
    v.append_token("A ");
    v.append_token("language.");
    assert_eq!(v.messages().len(), 2);
    assert_eq!(v.messages()[0].role, ChatRole::User);
    assert_eq!(v.messages()[1].content, "A language.");
    v.finish_streaming();
    assert!(!v.is_streaming());
    v.add_user_message("More?".to_string());
    v.append_token("Yes");
    assert_eq!(v.messages().len(), 4);
    assert_eq!(v.messages()[2].content, "More?");
    assert_eq!(v.messages()[3].content, "Yes");
    assert!(!v.has_error());
    v.set_error("timeout".to_string());
    assert!(v.has_error());
    assert!(!v.is_streaming());
}

#[test]
fn stream_messages_extend_then_end_the_answer() {
    let mut v = AiResponseView::new("Hi?".to_string());
    assert!(!ai_stream_step(&mut v, Ok("Hel".to_string())));
    assert!(!ai_stream_step(&mut v, Ok("lo".to_string())));
    assert!(v.is_streaming());
    assert_eq!(v.messages()[1].content, "Hello");
    assert!(ai_stream_step(&mut v, Ok(String::new())));
    assert!(!v.is_streaming());
    assert!(!v.has_error());

    send_follow_up(&mut v, "More?".to_string());
    assert_eq!(v.messages().len(), 4);
    assert_eq!(v.messages()[2].role, ChatRole::User);
    assert_eq!(v.messages()[3].content, "");
    assert!(ai_stream_step(&mut v, Err("offline".to_string())));
    assert!(v.has_error());
    assert!(!v.is_streaming());
}
