use jdpub::config::Config;
use jdpub::config::JapaneseLanguageConfig;
use jdpub::dict::GeneralDict;
use jdpub::level::JlptLevel;
use jdpub::level::SerializedJlptLevel;
use jdpub::node::Node;
use jdpub::node::Section;
use jdpub::node::SectionOrdering;
use jdpub::node::Text;
use jdpub::node::TextFragment;
use jdpub::store::DictDb;
use jdpub::store::GradedSources;
use jdpub::transform::annotate;
use jdpub::transform::Token;

const JLPT_N5: &str = "expression,reading,meaning,tags,guid\n\
食べる,たべる,to eat,vocab,g1\n\
木,き,tree,vocab,g2\n";

fn store() -> DictDb {
    let sources = GradedSources { kore: String::new(), jlpt: vec![(5u8, JLPT_N5.to_string())] };
    DictDb::with_dict(GeneralDict::Empty, &Config::default(), &sources)
}

fn config(definitions: JlptLevel, furigana: JlptLevel) -> Config {
    let mut config = Config::default();
    config.language.japanese = JapaneseLanguageConfig::new(
        SerializedJlptLevel::Level(definitions),
        SerializedJlptLevel::Level(furigana),
    );
    config
}

fn word(lemma: &str) -> Token {
    Token { lemma: lemma.to_string(), is_word: true }
}

#[test]
fn too_hard_words_stay_plain() {
    // 食べる is graded N5; both thresholds sit below it, so no help at all.
    let db = store();
    let cfg = config(JlptLevel::N4, JlptLevel::N3);
    let frag = db.token_fragment(&word("食べる"), &cfg);
    assert_eq!(frag.text, "食べる");
    assert!(frag.attributes.is_plain());
}

#[test]
fn annotated_words_carry_tooltip_and_reading() {
    // With both thresholds at N5 the word gets a tooltip and furigana.
    let db = store();
    let cfg = config(JlptLevel::N5, JlptLevel::N5);
    let frag = db.token_fragment(&word("食べる"), &cfg);
    assert_eq!(frag.text, "食べる");
    assert_eq!(
        frag.attributes.tooltip.as_deref(),
        Some("食べる[たべる::to eat::N5]")
    );
    assert_eq!(frag.attributes.annotation.as_deref(), Some("たべる"));
}

#[test]
fn reading_without_tooltip() {
    // A reader may want readings without glosses: the two gates act
    // independently.
    let db = store();
    let cfg = config(JlptLevel::N4, JlptLevel::N5);
    let frag = db.token_fragment(&word("食べる"), &cfg);
    assert!(frag.attributes.tooltip.is_none());
    assert_eq!(frag.attributes.annotation.as_deref(), Some("たべる"));
}

#[test]
fn loosening_the_gloss_threshold_adds_the_tooltip() {
    // The same word and store: raising the gloss threshold from N4 to N5
    // adds a tooltip and removes nothing.
    let db = store();
    let tight = db.token_fragment(&word("食べる"), &config(JlptLevel::N4, JlptLevel::N5));
    let loose = db.token_fragment(&word("食べる"), &config(JlptLevel::N5, JlptLevel::N5));
    assert!(tight.attributes.tooltip.is_none());
    assert!(loose.attributes.tooltip.is_some());
    assert_eq!(tight.attributes.annotation, loose.attributes.annotation);
}

#[test]
fn single_kana_tokens_stay_plain() {
    // き resolves (the tree 木 is stored under its reading), but a
    // single-character kana token is never annotated.
    let db = store();
    let cfg = config(JlptLevel::Beginner, JlptLevel::Beginner);
    assert!(db.lookup("き").is_some());
    let frag = db.token_fragment(&word("き"), &cfg);
    assert_eq!(frag.text, "き");
    assert!(frag.attributes.is_plain());
}

#[test]
fn latin_tokens_stay_plain() {
    let db = store();
    let cfg = config(JlptLevel::Beginner, JlptLevel::Beginner);
    for lemma in ["hello", "abc123", "42"] {
        let frag = db.token_fragment(&word(lemma), &cfg);
        assert_eq!(frag.text, lemma);
        assert!(frag.attributes.is_plain());
    }
}

#[test]
fn non_word_tokens_stay_plain() {
    let db = store();
    let cfg = config(JlptLevel::N5, JlptLevel::N5);
    let token = Token { lemma: "食べる".to_string(), is_word: false };
    let frag = db.token_fragment(&token, &cfg);
    assert_eq!(frag.text, "食べる");
    assert!(frag.attributes.is_plain());
}

fn text_node(texts: &[&str]) -> Node {
    Node::Text(Text {
        fragments: texts
            .iter()
            .map(|t| TextFragment::new(t.to_string(), None))
            .collect(),
    })
}

fn collect_text(node: &Node) -> String {
    match node {
        Node::Text(t) => t
            .fragments
            .iter()
            .map(|f| f.text.as_str())
            .collect::<Vec<_>>()
            .join(""),
        _ => panic!("expected a text node"),
    }
}

#[test]
fn annotate_preserves_tree_shape() {
    let db = store();
    let cfg = config(JlptLevel::N5, JlptLevel::N5);
    let mut tree = Node::Section(Section {
        ordering: SectionOrdering::List,
        nodes: vec![
            text_node(&["hello world"]),
            Node::Empty,
            Node::Section(Section {
                ordering: SectionOrdering::Unordered,
                nodes: vec![text_node(&["some text"])],
            }),
        ],
    });
    annotate(&mut tree, &db, &cfg).unwrap();
    match &tree {
        Node::Section(s) => {
            assert!(matches!(s.ordering, SectionOrdering::List));
            assert_eq!(s.nodes.len(), 3);
            assert!(matches!(s.nodes[0], Node::Text(_)));
            assert!(matches!(s.nodes[1], Node::Empty));
            match &s.nodes[2] {
                Node::Section(inner) => {
                    assert!(matches!(inner.ordering, SectionOrdering::Unordered));
                    assert_eq!(inner.nodes.len(), 1);
                    assert!(matches!(inner.nodes[0], Node::Text(_)));
                },
                _ => panic!("inner section lost"),
            }
        },
        _ => panic!("root section lost"),
    }
}

#[test]
fn annotate_keeps_plain_latin_text() {
    let db = store();
    let cfg = config(JlptLevel::N5, JlptLevel::N5);
    let mut tree = text_node(&["hello ", "world"]);
    annotate(&mut tree, &db, &cfg).unwrap();
    assert_eq!(collect_text(&tree), "hello world");
    match &tree {
        Node::Text(t) => {
            for f in &t.fragments {
                assert!(f.attributes.is_plain());
            }
        },
        _ => unreachable!(),
    }
}

#[test]
fn annotate_strips_structural_whitespace() {
    let db = store();
    let cfg = config(JlptLevel::N5, JlptLevel::N5);
    let mut tree = text_node(&["line\nbreak"]);
    annotate(&mut tree, &db, &cfg).unwrap();
    assert_eq!(collect_text(&tree), "line break");

    let mut tree = text_node(&["ab\u{3000}cd"]);
    annotate(&mut tree, &db, &cfg).unwrap();
    assert_eq!(collect_text(&tree), "abcd");
}

#[test]
fn annotate_emits_normalized_lemmas() {
    // Fragments carry the tokenizer's normalized lemma, not the raw
    // surface: the tokenizer decomposes べ into へ plus a combining mark.
    let db = store();
    let cfg = config(JlptLevel::Beginner, JlptLevel::Beginner);
    let mut tree = text_node(&["食べる"]);
    annotate(&mut tree, &db, &cfg).unwrap();
    assert_eq!(collect_text(&tree), "食へ\u{3099}る");
}
