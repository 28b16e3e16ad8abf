use jdpub::config::Config;
use jdpub::config::JapaneseLanguageConfig;
use jdpub::dict::GeneralDict;
use jdpub::dict::LoadError;
use jdpub::level::JlptLevel;
use jdpub::level::SerializedJlptLevel;
use jdpub::store::DictDb;
use jdpub::store::GradedSources;

const JLPT_N5: &str = "expression,reading,meaning,tags,guid\n\
食べる,たべる,to eat,vocab,g1\n\
木,き,tree,vocab,g2\n";

const JLPT_N3: &str = "expression,reading,meaning,tags,guid\n\
把握,はあく,grasp,vocab,g3\n";

const KORE: &str = "Core-index,Vocab-expression,Vocab-kana,Vocab-meaning,jlpt\n\
10,食べる,たべる,to consume,jlpt 2\n\
11,する,する,to do,jlpt 4\n\
12,ひ,ひ,day,jlpt 4\n";

fn sources() -> GradedSources {
    GradedSources {
        kore: KORE.to_string(),
        jlpt: vec![(3u8, JLPT_N3.to_string()), (5u8, JLPT_N5.to_string())],
    }
}

fn store() -> DictDb {
    DictDb::with_dict(GeneralDict::Empty, &Config::default(), &sources())
}

#[test]
fn override_entries_resolve_with_their_grade() {
    let db = store();
    let hit = db.lookup("把握").unwrap();
    assert_eq!(hit.kana, "はあく");
    assert_eq!(hit.meaning, "grasp");
    assert_eq!(hit.jlpt, JlptLevel::N3);
    assert!(!hit.is_kana);
}

#[test]
fn reading_keys_reach_the_same_entry() {
    let db = store();
    let hit = db.lookup("たべる").unwrap();
    assert_eq!(hit.kana, "たべる");
    assert_eq!(hit.meaning, "to eat");
    assert_eq!(hit.jlpt, JlptLevel::N5);
    assert!(hit.is_kana);
}

#[test]
fn later_lists_override_earlier_ones() {
    // The kore list grades 食べる as N3 ("jlpt 2"); the later N5 list wins.
    let db = store();
    let hit = db.lookup("食べる").unwrap();
    assert_eq!(hit.jlpt, JlptLevel::N5);
    assert_eq!(hit.meaning, "to eat");
}

#[test]
fn words_are_trimmed_before_lookup() {
    let db = store();
    let hit = db.lookup(" 食べる ").unwrap();
    assert_eq!(hit.meaning, "to eat");
}

#[test]
fn latin_words_never_resolve() {
    let db = store();
    assert!(db.lookup("hello").is_none());
    assert!(db.lookup("1234").is_none());
    assert!(db.lookup("").is_none());
}

#[test]
fn unknown_words_fall_through_to_the_dictionary() {
    // With an empty dictionary, a word outside the graded lists resolves to
    // nothing.
    let db = store();
    assert!(db.lookup("走る").is_none());
}

#[test]
fn single_character_kana_headwords_are_not_inserted() {
    // "ひ" is a single-character kana headword: the kore row is skipped.
    let db = store();
    assert!(db.lookup("ひ").is_none());
    // "する" is kana but two characters long, so it is kept, under one key.
    let hit = db.lookup("する").unwrap();
    assert_eq!(hit.meaning, "to do");
    assert_eq!(hit.jlpt, JlptLevel::N5); // "jlpt 4" maps to grade 5
}

#[test]
fn kanji_headwords_are_reachable_even_when_reading_is_short() {
    // 木/き: the headword is kanji, so both keys are inserted, including the
    // one-character reading.
    let db = store();
    let hit = db.lookup("き").unwrap();
    assert_eq!(hit.meaning, "tree");
    assert!(hit.is_kana);
    let hit = db.lookup("木").unwrap();
    assert_eq!(hit.meaning, "tree");
    assert!(!hit.is_kana);
}

#[test]
fn malformed_rows_are_skipped() {
    let bad = "expression,reading,meaning,tags,guid\n\
only,two\n\
走る,はしる,to run,vocab,g9\n";
    let src = GradedSources { kore: String::new(), jlpt: vec![(5u8, bad.to_string())] };
    let db = DictDb::with_dict(GeneralDict::Empty, &Config::default(), &src);
    assert!(db.lookup("only").is_none());
    let hit = db.lookup("走る").unwrap();
    assert_eq!(hit.meaning, "to run");
}

#[test]
fn lists_missing_a_column_contribute_nothing() {
    let bad = "expression,reading,meaning\n走る,はしる,to run\n";
    let src = GradedSources { kore: String::new(), jlpt: vec![(5u8, bad.to_string())] };
    let db = DictDb::with_dict(GeneralDict::Empty, &Config::default(), &src);
    assert!(db.lookup("走る").is_none());
}

#[test]
fn kore_rows_with_bad_core_index_are_skipped() {
    let kore = "Core-index,Vocab-expression,Vocab-kana,Vocab-meaning,jlpt\n\
abc,話す,はなす,to speak,jlpt 3\n\
13,聞く,きく,to hear,jlpt 3\n";
    let src = GradedSources { kore: kore.to_string(), jlpt: vec![] };
    let db = DictDb::with_dict(GeneralDict::Empty, &Config::default(), &src);
    assert!(db.lookup("話す").is_none());
    let hit = db.lookup("聞く").unwrap();
    assert_eq!(hit.meaning, "to hear");
    assert_eq!(hit.jlpt, JlptLevel::N4);
}

#[test]
fn loading_without_dictionary_data_is_fatal() {
    // No dictionary data ships with the tests, so construction through the
    // loader reports the fatal error.
    let r = DictDb::new(&Config::default(), &sources());
    match r {
        Err(e) => {
            assert_eq!(e, LoadError::Dictionary);
            assert_eq!(e.message(), "unable to load the general dictionary");
        },
        Ok(_) => panic!("expected the dictionary load to fail without data"),
    }
}

#[test]
fn thresholds_do_not_affect_resolution() {
    // The store's language settings gate nothing at resolve time.
    let mut config = Config::default();
    config.language.japanese = JapaneseLanguageConfig::new(
        SerializedJlptLevel::Level(JlptLevel::Master),
        SerializedJlptLevel::Level(JlptLevel::Master),
    );
    let db = DictDb::with_dict(GeneralDict::Empty, &config, &sources());
    assert_eq!(db.lookup("食べる").unwrap().jlpt, JlptLevel::N5);
}
