use zlaunch::clipboard_view::{
    clipboard_icon, file_kind, preview_cut_is_clean, preview_for, truncate_preview, ClipFileKind,
    paste_text, ClipIcon, ClipboardContent, Preview,
};
use zlaunch::color::Color;
use zlaunch::icons::PhosphorIcon;

fn float_alpha(text: String) -> Option<u8> {
    text.parse::<f32>().ok().map(|a| (a * 255.0) as u8)
}

fn text(s: &str) -> ClipboardContent {
    ClipboardContent::Text(s.to_string())
}

#[test]
fn clipboard_icons_by_content() {
    assert_eq!(
        clipboard_icon(&text(" #ff0000 "), float_alpha),
        ClipIcon::Swatch(Color::from_rgb(255, 0, 0))
    );
    assert_eq!(
        clipboard_icon(&text("file:///tmp/a%20b.PNG"), float_alpha),
        ClipIcon::Icon(PhosphorIcon::FileImage)
    );
    assert_eq!(
        clipboard_icon(&text("file:///tmp/readme"), float_alpha),
        ClipIcon::Icon(PhosphorIcon::File)
    );
    assert_eq!(
        clipboard_icon(&text("hello"), float_alpha),
        ClipIcon::Icon(PhosphorIcon::ClipboardText)
    );
    assert_eq!(
        clipboard_icon(&ClipboardContent::FilePaths(vec!["/x/notes.md".to_string()]), float_alpha),
        ClipIcon::Icon(PhosphorIcon::FileText)
    );
    assert_eq!(
        clipboard_icon(
            &ClipboardContent::FilePaths(vec!["/a.png".to_string(), "/b.png".to_string()]),
            float_alpha
        ),
        ClipIcon::Icon(PhosphorIcon::File)
    );
    let image = ClipboardContent::Image { width: 1, height: 1, rgba_bytes: vec![0, 0, 0, 255] };
    assert_eq!(clipboard_icon(&image, float_alpha), ClipIcon::Icon(PhosphorIcon::Image));
    let rich = ClipboardContent::RichText { plain: "x".to_string() };
    assert_eq!(clipboard_icon(&rich, float_alpha), ClipIcon::Icon(PhosphorIcon::ClipboardText));
}

#[test]
fn clipboard_previews_by_content() {
    assert_eq!(preview_for(None, float_alpha), Preview::Empty);
    assert_eq!(
        preview_for(Some(&text("rgb(1, 2, 3)")), float_alpha),
        Preview::Swatch(Color::from_rgb(1, 2, 3))
    );
    assert_eq!(
        preview_for(Some(&text("file:///a/b.txt")), float_alpha),
        Preview::TextFile { path: "/a/b.txt".to_string(), fallback: "file:///a/b.txt".to_string() }
    );
    assert_eq!(
        preview_for(Some(&text("file:///a/b.gif")), float_alpha),
        Preview::ImageFile("/a/b.gif".to_string())
    );
    assert_eq!(
        preview_for(Some(&text("file:///a/b.bin")), float_alpha),
        Preview::Text("file:///a/b.bin".to_string())
    );
    let files = ClipboardContent::FilePaths(vec!["/a".to_string(), "/b".to_string()]);
    assert_eq!(preview_for(Some(&files), float_alpha), Preview::PathList("/a\n/b".to_string()));
    let one = ClipboardContent::FilePaths(vec!["/a/c.toml".to_string()]);
    assert_eq!(
        preview_for(Some(&one), float_alpha),
        Preview::TextFile { path: "/a/c.toml".to_string(), fallback: "/a/c.toml".to_string() }
    );
    let rich = ClipboardContent::RichText { plain: "plain".to_string() };
    assert_eq!(preview_for(Some(&rich), float_alpha), Preview::Text("plain".to_string()));
}

#[test]
fn file_kinds_use_the_clipboard_lists() {
    assert_eq!(file_kind("x.JPEG"), ClipFileKind::Image);
    assert_eq!(file_kind("x.sh"), ClipFileKind::Text);
    assert_eq!(file_kind("x.bmp"), ClipFileKind::Other);
    assert_eq!(file_kind("x"), ClipFileKind::Other);
}

#[test]
fn long_previews_are_cut() {
    assert_eq!(truncate_preview("short"), "short");
    let long = "a".repeat(10001);
    let cut = truncate_preview(&long);
    assert_eq!(
        cut,
        format!("{}...\n\n[Content truncated - 10001 bytes total]", "a".repeat(10000))
    );
    assert!(preview_cut_is_clean(&long));
    assert!(preview_cut_is_clean(&"é".repeat(5001)));
    let odd = format!("a{}", "é".repeat(5000));
    assert!(!preview_cut_is_clean(&odd));
}

#[test]
fn confirming_copies_the_entry_as_text() {
    let text = ClipboardContent::Text("hello".to_string());
    assert_eq!(paste_text(&text), Some("hello".to_string()));
    let rich = ClipboardContent::RichText { plain: "bold".to_string() };
    assert_eq!(paste_text(&rich), Some("bold".to_string()));
    let files = ClipboardContent::FilePaths(vec!["/a/b.txt".to_string(), "/c.png".to_string()]);
    assert_eq!(paste_text(&files), Some("/a/b.txt\n/c.png".to_string()));
    let image = ClipboardContent::Image { width: 1, height: 1, rgba_bytes: vec![0, 0, 0, 255] };
    assert_eq!(paste_text(&image), None);
}
