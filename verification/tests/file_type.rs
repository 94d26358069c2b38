use zlaunch::file_type::{
    classify_file, extension, is_image_ext, is_text_ext, should_preview_as_image,
    should_preview_as_text, FileType,
};

#[test]
fn test_classify_image() {
    assert_eq!(classify_file("test.png"), FileType::Image);
    assert_eq!(classify_file("test.JPG"), FileType::Image);
    assert_eq!(classify_file("test.svg"), FileType::Image);
}

#[test]
fn test_classify_text() {
    assert_eq!(classify_file("test.txt"), FileType::Text);
    assert_eq!(classify_file("test.md"), FileType::Text);
    assert_eq!(classify_file("test.rs"), FileType::Text);
}

#[test]
fn test_classify_other() {
    assert_eq!(classify_file("test.pdf"), FileType::Other);
    assert_eq!(classify_file("test"), FileType::Other);
}

#[test]
fn extension_follows_path_rules() {
    let ext = |p: &str| extension(p).into_iter().collect::<String>();
    assert_eq!(ext("/home/u/notes.tar.gz"), "gz");
    assert_eq!(ext(".bashrc"), "");
    assert_eq!(ext("dir.d/file"), "");
    assert_eq!(ext("a/b.txt/"), "txt");
    assert_eq!(ext("a/b.txt/."), "txt");
    assert_eq!(ext("foo."), "");
    assert_eq!(ext("x/.."), "");
    assert_eq!(ext(""), "");
}

#[test]
fn extension_checks_ignore_case() {
    assert!(is_image_ext("PNG"));
    assert!(is_image_ext("jpeg"));
    assert!(!is_image_ext("txt"));
    assert!(is_text_ext("TOML"));
    assert!(!is_text_ext("png"));
    assert!(should_preview_as_image("/tmp/photo.WebP"));
    assert!(should_preview_as_text("src/main.rs"));
    assert!(!should_preview_as_text("archive.zip"));
}
