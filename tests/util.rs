use mangabot::command::{parse_start_payload, parse_string_i32, parse_string_string_i32};
use mangabot::util::{
    build_images_url, digits_to_i32, escape_md_v2, extract_info, extract_num, fix_image_url,
    get_scheme, sanitize_filename,
};

#[test]
fn test_sanitize_filename_basic() {
    assert_eq!(sanitize_filename("a/b\\c*?<>|"), "a_b_c_____");
    assert_eq!(sanitize_filename("..hidden"), "hidden");
    assert_eq!(sanitize_filename(" 漫 画 标 题 "), "_ _ _ _");
}

#[test]
fn test_sanitize_filename_length_cap() {
    let long = "a".repeat(1000);
    let s = sanitize_filename(&long);
    assert!(s.len() <= 128);
}

#[test]
fn sanitize_empty_gives_file() {
    assert_eq!(sanitize_filename(""), "file");
    assert_eq!(sanitize_filename(" .. "), "file");
}

#[test]
fn escape_markdown() {
    assert_eq!(escape_md_v2("a_b*c"), "a\\_b\\*c");
    assert_eq!(escape_md_v2("[x](y)!"), "\\[x\\]\\(y\\)\\!");
    assert_eq!(escape_md_v2("plain"), "plain");
}

#[test]
fn digits_joined() {
    assert_eq!(digits_to_i32("共 12 页"), 12);
    assert_eq!(digits_to_i32("a1b2c3"), 123);
    assert_eq!(digits_to_i32("none"), 0);
    assert_eq!(digits_to_i32("99999999999"), 0);
}

#[test]
fn number_after_dash() {
    assert_eq!(extract_num("/photos-index-aid-482913.html"), Some(482913));
    assert_eq!(extract_num("no number"), None);
    assert_eq!(extract_num("-99999999999999999999"), None);
}

#[test]
fn info_line() {
    assert_eq!(extract_info("12P2024-05-06"), (12, "2024-05-06".to_string()));
    assert_eq!(extract_info("nothing"), (0, String::new()));
}

#[test]
fn scheme_and_image_links() {
    assert_eq!(get_scheme("https://a.b/c"), "https:");
    assert_eq!(get_scheme("http://a.b/c"), "http:");
    assert_eq!(fix_image_url("//img.example/x.jpg", "https:"), "https://img.example/x.jpg");
    assert_eq!(fix_image_url("////img.example/x.jpg", "http:"), "http://img.example/x.jpg");
    assert_eq!(fix_image_url("https://img.example/x.jpg", "http:"), "https://img.example/x.jpg");
}

#[test]
fn images_link() {
    assert_eq!(build_images_url("https://site.example//", "42"), "https://site.example/photos-webp-aid-42.html");
}

#[test]
fn command_argument_parsers() {
    assert_eq!(parse_string_i32("week 3"), (Some("week".to_string()), Some(3)));
    assert_eq!(parse_string_i32("  7 "), (None, Some(7)));
    assert_eq!(parse_string_i32(""), (None, None));
    assert_eq!(
        parse_string_string_i32("trz zh 2"),
        (Some("trz".to_string()), Some("zh".to_string()), Some(2))
    );
    assert_eq!(parse_string_string_i32("trz"), (Some("trz".to_string()), None, None));
    assert_eq!(parse_start_payload("  abc \n"), Some("abc".to_string()));
    assert_eq!(parse_start_payload(" \t "), None);
}
