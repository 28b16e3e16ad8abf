use jdpub::text::character_count;
use jdpub::text::is_english;
use jdpub::text::is_kana;
use jdpub::text::is_kanji;
use jdpub::text::str_chars;
use jdpub::util::get_mimetype;
use jdpub::util::read_embedded_data;
use jdpub::util::read_embedded_text;
use jdpub::util::str_ends_with;
use jdpub::util::EmbedError;
use jdpub::util::EmbeddedData;
use jdpub::vocab::parse_usize;
use jdpub::vocab::KoreEntry;

#[test]
fn kana_kanji_and_english_classes() {
    assert!(is_kana("たべる"));
    assert!(is_kana("カタカナ"));
    assert!(!is_kana("食べる"));
    assert!(is_kanji("食べる"));
    assert!(!is_kanji("たべる"));
    assert!(is_english("hello"));
    assert!(is_english("1234"));
    assert!(is_english(""));
    assert!(!is_english("たべる"));
    assert!(!is_english("食"));
    // Zenkaku numbers count as Japanese, plain digits do not.
    assert!(is_kana("２月") == false);
    assert!(is_kanji("２月"));
    assert!(is_english("2x"));
}

#[test]
fn character_count_trims_whitespace() {
    assert_eq!(character_count("  abc "), 3);
    assert_eq!(character_count("たべる"), 3);
    assert_eq!(character_count("   "), 0);
    assert_eq!(character_count(""), 0);
    // The ideographic space is whitespace too.
    assert_eq!(character_count("\u{3000}き\u{3000}"), 1);
}

#[test]
fn chars_are_counted_per_character() {
    assert_eq!(str_chars("ab").len(), 2);
    assert_eq!(str_chars("食べる").len(), 3);
    assert_eq!(str_chars("").len(), 0);
}

#[test]
fn parse_usize_accepts_digit_strings_only() {
    assert_eq!(parse_usize("0"), Some(0));
    assert_eq!(parse_usize("123"), Some(123));
    assert_eq!(parse_usize("007"), Some(7));
    assert_eq!(parse_usize(""), None);
    assert_eq!(parse_usize("12a"), None);
    assert_eq!(parse_usize("-3"), None);
    assert_eq!(parse_usize("99999999999999999999999999999"), None);
}

#[test]
fn kore_levels_follow_the_tag_digit() {
    let entry = |tag: &str| KoreEntry {
        expression: "x".to_string(),
        core_index: 1,
        meaning: "m".to_string(),
        reading: "r".to_string(),
        _jlpt: tag.to_string(),
    };
    assert_eq!(entry("jlpt 0").level(), 1);
    assert_eq!(entry("jlpt 1").level(), 2);
    assert_eq!(entry("jlpt 2").level(), 3);
    assert_eq!(entry("jlpt 3").level(), 4);
    assert_eq!(entry("jlpt 4").level(), 5);
    assert_eq!(entry("").level(), 1);
    assert_eq!(entry("unknown").level(), 1);
}

#[test]
fn mimetypes_follow_suffixes() {
    assert_eq!(get_mimetype("style.css"), "text/css");
    assert_eq!(get_mimetype("book.epub"), "application/epub+zip");
    assert_eq!(get_mimetype("page.html"), "text/html");
    assert_eq!(get_mimetype("cover.jpeg"), "image/jpeg");
    assert_eq!(get_mimetype("cover.jpg"), "image/jpeg");
    assert_eq!(get_mimetype("notes.md"), "text/plain");
    assert_eq!(get_mimetype("font.woff2"), "font/woff2");
    assert_eq!(get_mimetype("page.xhtml"), "application/xhtml+xml");
    assert_eq!(get_mimetype("mystery.bin"), "application/octet-stream");
}

#[test]
fn suffix_test_matches_ends() {
    assert!(str_ends_with("book.epub", ".epub"));
    assert!(!str_ends_with("book.epubx", ".epub"));
    assert!(!str_ends_with("ub", ".epub"));
    assert!(str_ends_with("anything", ""));
}

#[test]
fn embedded_files_are_found_by_name() {
    let files = vec![
        ("a.txt".to_string(), EmbeddedData(b"hello".to_vec())),
        ("b.bin".to_string(), EmbeddedData(vec![0xff, 0xfe])),
    ];
    let d = read_embedded_data(&files, "a.txt").unwrap();
    assert_eq!(d.0, b"hello".to_vec());
    assert_eq!(read_embedded_data(&files, "c.txt").unwrap_err(), EmbedError::Missing);
    assert_eq!(read_embedded_text(&files, "a.txt").unwrap(), "hello");
    assert_eq!(read_embedded_text(&files, "b.bin").unwrap_err(), EmbedError::NotUtf8);
    assert_eq!(read_embedded_text(&files, "c.txt").unwrap_err(), EmbedError::Missing);
    assert_eq!(EmbeddedData::empty().0.len(), 0);
}
