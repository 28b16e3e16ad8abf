//! Lookups against a small in-memory general dictionary, exercising the
//! exact, deinflected, prefix and override paths of the resolver.

use std::sync::Arc;

use fst::MapBuilder;
use jdpub::config::Config;
use jdpub::dict::GeneralDict;
use jdpub::level::JlptLevel;
use jdpub::store::DictDb;
use jdpub::store::GradedSources;
use jmdict_fast::{Dict, DictStorage};

fn varint(mut n: u64, out: &mut Vec<u8>) {
    loop {
        let mut b = (n & 0x7f) as u8;
        n >>= 7;
        if n != 0 {
            b |= 0x80;
        }
        out.push(b);
        if n == 0 {
            break;
        }
    }
}

fn put_str(s: &str, out: &mut Vec<u8>) {
    varint(s.len() as u64, out);
    out.extend_from_slice(s.as_bytes());
}

fn put_strs(v: &[&str], out: &mut Vec<u8>) {
    varint(v.len() as u64, out);
    for s in v {
        put_str(s, out);
    }
}

fn put_bool(b: bool, out: &mut Vec<u8>) {
    out.push(if b { 1 } else { 0 });
}

fn put_none(out: &mut Vec<u8>) {
    out.push(0);
}

/// Encode one dictionary entry in the serialized layout the dictionary
/// engine reads: id, kanji writings, kana readings, senses with glosses.
fn encode_entry(id: &str, kanji: &[&str], kana: &[&str], senses: &[&[&str]]) -> Vec<u8> {
    let mut out = Vec::new();
    put_str(id, &mut out);
    varint(kanji.len() as u64, &mut out);
    for k in kanji {
        put_bool(true, &mut out); // common
        put_str(k, &mut out); // text
        put_strs(&[], &mut out); // tags
    }
    varint(kana.len() as u64, &mut out);
    for k in kana {
        put_bool(true, &mut out); // common
        put_str(k, &mut out); // text
        put_strs(&[], &mut out); // tags
        put_strs(&[], &mut out); // applies to kanji
    }
    varint(senses.len() as u64, &mut out);
    for glosses in senses {
        put_strs(&[], &mut out); // part of speech
        put_strs(&[], &mut out); // applies to kanji
        put_strs(&[], &mut out); // applies to kana
        varint(0, &mut out); // related
        varint(0, &mut out); // antonym
        put_strs(&[], &mut out); // field
        put_strs(&[], &mut out); // dialect
        put_strs(&[], &mut out); // misc
        put_strs(&[], &mut out); // info
        varint(0, &mut out); // language source
        varint(glosses.len() as u64, &mut out);
        for g in glosses.iter() {
            put_str("eng", &mut out); // lang
            put_none(&mut out); // gender
            put_none(&mut out); // gloss type
            put_str(g, &mut out); // text
        }
    }
    out
}

fn entries_bin(entries: &[Vec<u8>]) -> Vec<u8> {
    let mut out = Vec::new();
    out.extend_from_slice(b"JMDF");
    out.extend_from_slice(&4u32.to_le_bytes());
    out.extend_from_slice(&4u16.to_le_bytes());
    out.extend_from_slice(b"test");
    out.extend_from_slice(&3u16.to_le_bytes());
    out.extend_from_slice(b"now");
    out.extend_from_slice(&(entries.len() as u32).to_le_bytes());
    let mut off = 0u32;
    for e in entries {
        out.extend_from_slice(&off.to_le_bytes());
        out.extend_from_slice(&(e.len() as u32).to_le_bytes());
        off += e.len() as u32;
    }
    for e in entries {
        out.extend_from_slice(e);
    }
    out
}

fn fst_map(mut pairs: Vec<(&str, u64)>) -> Vec<u8> {
    pairs.sort();
    let mut b = MapBuilder::memory();
    for (k, v) in pairs.iter() {
        b.insert(k, *v).unwrap();
    }
    b.into_inner().unwrap()
}

/// A dictionary of four entries: two verbs, a kana-only word whose sense has
/// no gloss, and a word written with mixed scripts.
fn tiny_dict() -> Dict {
    let entries = vec![
        encode_entry("e0", &["食べる"], &["たべる"], &[&["to eat (dict)"]]),
        encode_entry("e1", &["走る"], &["はしる"], &[&["to run (dict)"]]),
        encode_entry("e2", &[], &["ことば"], &[&[]]),
        encode_entry("e3", &["X県"], &["エックスけん"], &[&["prefecture x (dict)"]]),
    ];
    let kana = fst_map(vec![("たべる", 0), ("はしる", 1), ("ことば", 2), ("エックスけん", 3)]);
    let kanji = fst_map(vec![("食べる", 0), ("走る", 1), ("X県", 3)]);
    let romaji = fst_map(vec![]);
    let id = fst_map(vec![("e0", 0), ("e1", 1), ("e2", 2), ("e3", 3)]);
    let gloss = fst_map(vec![]);
    let own = |v: Vec<u8>| DictStorage::Owned(Arc::new(v));
    Dict::from_storage(
        own(entries_bin(&entries)),
        own(kana),
        own(kanji),
        own(romaji),
        own(id),
        own(gloss),
        own(Vec::new()),
    )
    .unwrap()
}

const GRADED_N3: &str = "expression,reading,meaning,tags,guid\n\
食べる,たべる,to eat (graded),vocab,g1\n";

fn store_with(graded: bool, approximate: bool) -> DictDb {
    let mut config = Config::default();
    config.language.approximate = approximate;
    let sources = GradedSources {
        kore: String::new(),
        jlpt: if graded { vec![(3u8, GRADED_N3.to_string())] } else { vec![] },
    };
    DictDb::with_dict(GeneralDict::Jmdict(tiny_dict()), &config, &sources)
}

#[test]
fn dictionary_words_resolve_ungraded() {
    let db = store_with(false, true);
    let hit = db.lookup("走る").unwrap();
    assert_eq!(hit.kana, "はしる");
    assert_eq!(hit.meaning, "to run (dict)");
    assert_eq!(hit.jlpt, JlptLevel::Ungraded);
    assert!(!hit.is_kana);
}

#[test]
fn override_beats_the_dictionary() {
    // 食べる is both graded (N3) and in the dictionary: the graded entry
    // wins, with its own gloss and level.
    let db = store_with(true, true);
    let hit = db.lookup("食べる").unwrap();
    assert_eq!(hit.meaning, "to eat (graded)");
    assert_eq!(hit.jlpt, JlptLevel::N3);
}

#[test]
fn deinflected_matches_prefer_the_override() {
    // 食べた is not a key of the override mapping, but deinflects to 食べる,
    // which is: the resolver reports the graded entry, not the raw
    // dictionary data.
    let db = store_with(true, true);
    let hit = db.lookup("食べた").unwrap();
    assert_eq!(hit.meaning, "to eat (graded)");
    assert_eq!(hit.jlpt, JlptLevel::N3);
}

#[test]
fn deinflected_matches_fall_back_to_the_dictionary() {
    // Without a graded entry, the deinflected dictionary match is used.
    let db = store_with(false, true);
    let hit = db.lookup("食べた").unwrap();
    assert_eq!(hit.meaning, "to eat (dict)");
    assert_eq!(hit.jlpt, JlptLevel::Ungraded);
}

#[test]
fn exact_mode_skips_deinflection() {
    let db = store_with(false, false);
    assert!(db.lookup("食べた").is_none());
    let hit = db.lookup("食べる").unwrap();
    assert_eq!(hit.meaning, "to eat (dict)");
}

#[test]
fn prefix_fallback_finds_longer_words() {
    // はし matches nothing exactly and deinflects to nothing in the
    // dictionary, so the prefix lookup serves it.
    let db = store_with(false, true);
    let hit = db.lookup("はし").unwrap();
    assert_eq!(hit.meaning, "to run (dict)");
    assert_eq!(hit.kana, "はしる");
}

#[test]
fn candidates_without_glosses_are_not_actionable() {
    let db = store_with(false, true);
    assert!(db.lookup("ことば").is_none());
}

#[test]
fn mixed_script_words_skip_the_deinflector() {
    // A word mixing kanji with Latin script is target-language (it contains
    // a kanji) but is not handed to the deinflector; with no exact or prefix
    // match it resolves to nothing.
    let db = store_with(true, true);
    assert!(db.lookup("漢a").is_none());
    assert!(db.lookup("食べるx").is_none());
    assert!(db.lookup("a漢字b").is_none());
}

#[test]
fn mixed_script_words_still_take_exact_matches() {
    // An exact dictionary key is honored even for a word that cannot be
    // deinflected: the approximate path takes its exact matches directly.
    let db = store_with(false, true);
    let hit = db.lookup("X県").unwrap();
    assert_eq!(hit.meaning, "prefecture x (dict)");
    assert_eq!(hit.kana, "エックスけん");
    assert_eq!(hit.jlpt, JlptLevel::Ungraded);
}
