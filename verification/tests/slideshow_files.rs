use info_screen::slideshow::{is_plain_file_name, slideshow_content_type, slideshow_image_type, slideshow_images};

#[test]
fn accepts_only_browser_safe_slideshow_image_types() {
    assert_eq!(slideshow_content_type("photo.JPG"), Some("image/jpeg"));
    assert_eq!(slideshow_content_type("photo.webp"), Some("image/webp"));
    assert_eq!(slideshow_content_type("photo.svg"), None);
    assert_eq!(slideshow_content_type("photo.txt"), None);
}

#[test]
fn content_types_follow_the_file_name_extension() {
    assert_eq!(slideshow_content_type("a.avif"), Some("image/avif"));
    assert_eq!(slideshow_content_type("a.GiF"), Some("image/gif"));
    assert_eq!(slideshow_content_type("a.jpeg"), Some("image/jpeg"));
    assert_eq!(slideshow_content_type("a.png"), Some("image/png"));
    assert_eq!(slideshow_content_type("dir/holiday.PNG"), Some("image/png"));
    assert_eq!(slideshow_content_type("dir/holiday.png/"), Some("image/png"));
    assert_eq!(slideshow_content_type("dir/holiday.png/."), Some("image/png"));
    assert_eq!(slideshow_content_type(".png"), None);
    assert_eq!(slideshow_content_type("..png"), Some("image/png"));
    assert_eq!(slideshow_content_type("png"), None);
    assert_eq!(slideshow_content_type("a.png.txt"), None);
    assert_eq!(slideshow_content_type("a.txt.png"), Some("image/png"));
    assert_eq!(slideshow_content_type("x.png/.."), None);
    assert_eq!(slideshow_content_type(""), None);
    assert_eq!(slideshow_content_type("/"), None);
}

#[test]
fn plain_file_names() {
    assert!(is_plain_file_name("photo.jpg"));
    assert!(is_plain_file_name("..."));
    assert!(!is_plain_file_name(""));
    assert!(!is_plain_file_name("."));
    assert!(!is_plain_file_name(".."));
    assert!(!is_plain_file_name("a/b.jpg"));
    assert!(!is_plain_file_name("b.jpg/"));
    assert!(!is_plain_file_name("../b.jpg"));
}

#[test]
fn image_requests_are_checked() {
    assert_eq!(slideshow_image_type("a.jpg").ok(), Some("image/jpeg"));
    let bad = slideshow_image_type("../a.jpg").err().unwrap();
    assert_eq!((bad.status, bad.message.as_str()), (400, "Invalid slideshow filename."));
    let unsupported = slideshow_image_type("a.svg").err().unwrap();
    assert_eq!((unsupported.status, unsupported.message.as_str()), (415, "Unsupported slideshow image type."));
}

#[test]
fn the_slideshow_lists_pictures_by_lower_case_name() {
    let names = vec!["b.png", "notes.txt", "A.jpg", "c.GIF", "a.JPG", "B.webp", "Z.avif"]
        .into_iter()
        .map(String::from)
        .collect();
    assert_eq!(slideshow_images(names), vec!["A.jpg", "a.JPG", "b.png", "B.webp", "c.GIF", "Z.avif"]);
    assert!(slideshow_images(vec![]).is_empty());
}

#[test]
fn media_types_ignore_the_case_of_the_whole_name() {
    for name in ["Holiday.JPG", "dir/Photo.Png", "A.WEBP/", "x.SVG", ".PNG", "Nested/.Hidden.GIF"] {
        let t = slideshow_content_type(name);
        assert_eq!(t, slideshow_content_type(&name.to_ascii_lowercase()), "{name}");
        assert_eq!(t, slideshow_content_type(&name.to_ascii_uppercase()), "{name}");
    }
}
