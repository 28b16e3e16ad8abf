use jdpub::config::ChapterConfig;
use jdpub::config::Config;
use jdpub::config::ExportConfig;
use jdpub::config::ExportType;
use jdpub::config::HtmlParseConfig;
use jdpub::config::JapaneseLanguageConfig;
use jdpub::config::LanguageConfig;
use jdpub::config::ParseRule;
use jdpub::level::JlptLevel;
use jdpub::level::SerializedJlptLevel;

fn jp(definitions: JlptLevel, furigana: JlptLevel) -> JapaneseLanguageConfig {
    JapaneseLanguageConfig::new(
        SerializedJlptLevel::Level(definitions),
        SerializedJlptLevel::Level(furigana),
    )
}

#[test]
fn lowest_level_is_the_looser_threshold() {
    assert_eq!(jp(JlptLevel::N4, JlptLevel::N3).lowest_level(), JlptLevel::N4);
    assert_eq!(jp(JlptLevel::N2, JlptLevel::N5).lowest_level(), JlptLevel::N5);
    assert_eq!(jp(JlptLevel::N3, JlptLevel::N3).lowest_level(), JlptLevel::N3);
    assert_eq!(jp(JlptLevel::N4, JlptLevel::N3).definitions(), JlptLevel::N4);
    assert_eq!(jp(JlptLevel::N4, JlptLevel::N3).furigana(), JlptLevel::N3);
}

#[test]
fn language_defaults() {
    let lc = LanguageConfig::default();
    assert!(lc.approximate);
    assert_eq!(lc.japanese.definitions(), JlptLevel::N3);
    assert_eq!(lc.japanese.furigana(), JlptLevel::N3);
}

#[test]
fn export_type_follows_output_suffix() {
    let mut e = ExportConfig::default();
    assert!(matches!(e.export_type(), ExportType::Epub));
    e.output_file = "book.epub".to_string();
    assert!(matches!(e.export_type(), ExportType::Epub));
    e.output_file = "page.html".to_string();
    assert!(matches!(e.export_type(), ExportType::Html));
    e.output_file = "odd.txt".to_string();
    assert!(matches!(e.export_type(), ExportType::Epub));
}

#[test]
fn export_merge_keeps_set_fields() {
    let mut base = ExportConfig::default();
    base.title = "Old".to_string();
    base.author = "Author".to_string();
    let mut other = ExportConfig::default();
    other.title = "New".to_string();
    other.output_file = "out.epub".to_string();
    base.merge(other);
    assert_eq!(base.title, "New");
    assert_eq!(base.author, "Author");
    assert_eq!(base.output_file, "out.epub");
    assert!(base.cover.is_none());
}

#[test]
fn book_carries_title_and_author() {
    let mut e = ExportConfig::default();
    e.title = "T".to_string();
    e.author = "A".to_string();
    let b = e.book();
    assert_eq!(b.title, "T");
    assert_eq!(b.author, "A");
    assert!(b.chapters.is_empty());
}

#[test]
fn html_parse_defaults_and_depth() {
    let mut h = HtmlParseConfig::default();
    assert_eq!(h.depth(), 10);
    h.depth = Some(3);
    assert_eq!(h.depth(), 3);
    let flags = h.parse_flags();
    assert!(flags.parsing);
    assert!(flags.allow.is_empty());
    h.allow.push(ParseRule::from_element("article".to_string()));
    let flags = h.parse_flags();
    assert!(!flags.parsing);
    assert_eq!(flags.allow.len(), 1);
    assert_eq!(flags.allow[0], ParseRule::Element("article".to_string()));
}

#[test]
fn config_merge_accumulates_rules_and_chapters() {
    let mut a = Config::default();
    a.parse.html.skip.push(ParseRule::from_class("ad".to_string()));
    a.import.chapters.push(ChapterConfig {
        title: "One".to_string(),
        uri: "one.html".to_string(),
    });

    let mut b = Config::default();
    b.parse.html.skip.push(ParseRule::from_class("banner".to_string()));
    b.parse.html.user_agent = "custom/1.0".to_string();
    b.language.japanese = jp(JlptLevel::N5, JlptLevel::N4);
    b.import.chapters.push(ChapterConfig {
        title: "Two".to_string(),
        uri: "two.html".to_string(),
    });

    a.merge(b);
    assert_eq!(a.parse.html.skip.len(), 2);
    assert_eq!(a.parse.html.user_agent, "custom/1.0");
    assert_eq!(a.import.chapters.len(), 2);
    assert_eq!(a.import.chapters[1].title, "Two");
    assert_eq!(a.language.japanese.definitions(), JlptLevel::N5);
}

#[test]
fn merge_keeps_base_user_agent_when_other_is_empty() {
    let mut a = Config::default();
    let b = Config::default();
    let ua = a.parse.html.user_agent.clone();
    let mut b2 = b;
    b2.parse.html.user_agent = String::new();
    a.merge(b2);
    assert_eq!(a.parse.html.user_agent, ua);
}
