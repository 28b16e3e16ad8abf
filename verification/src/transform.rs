//! The annotation transform: walk the document tree, tokenize each text run,
//! resolve each word against the store, and attach tooltip and reading
//! attributes gated by the configured thresholds.

use vstd::prelude::*;

use vstd::string::StringExecFns;

use crate::config::Config;
use crate::config::JapaneseLanguageConfig;
use crate::dict::GeneralDict;
use crate::node::AttrModel;
use crate::node::FragModel;
use crate::node::Node;
use crate::node::Section;
use crate::node::Text;
use crate::node::TextAttributes;
use crate::node::TextFragment;
use crate::node::frags_view;
use crate::store::DictDb;
use crate::text::character_count;
use crate::text::str_chars;
use crate::text::trim_seq;
use crate::vocab::DictLookup;
use crate::vocab::LookupModel;
use crate::vocab::VocabModel;
use crate::store::resolve_spec;

verus! {

/// One token of a text run: its normalized lemma, and whether the tokenizer
/// classified it as a word (as opposed to a separator or stop word).
#[derive(Clone, Debug)]
pub struct Token {
    /// The token's normalized lemma (dictionary base form).
    pub lemma: String,
    /// Whether the token is a word.
    pub is_word: bool,
}

/// Mathematical model of a token.
pub struct TokenModel {
    pub lemma: Seq<char>,
    pub is_word: bool,
}

impl View for Token {
    type V = TokenModel;

    open spec fn view(&self) -> TokenModel {
        TokenModel { lemma: self.lemma@, is_word: self.is_word }
    }
}

/// What the tokenizer returns for a text: a deterministic, total
/// segmentation into tokens.
pub uninterp spec fn tokens_of(s: Seq<char>) -> Seq<TokenModel>;

/// Relies on charabia's `tokenize`: deterministic segmentation of the text
/// into classified tokens, each carrying a normalized lemma.
#[verifier::external_body]
fn tokenize_chars(text: &Vec<char>) -> (r: Vec<Token>)
    ensures
        r@.map_values(|t: Token| t@) == tokens_of(text@),
{
    let s: String = text.iter().collect();
    charabia::Tokenize::tokenize(&s.as_str())
        .map(|tk| Token { lemma: tk.lemma().to_string(), is_word: tk.is_word() })
        .collect()
}

/// The texts of the fragments of a text node, run together in order.
pub open spec fn concat_frag_texts(frags: Seq<FragModel>) -> Seq<char>
    decreases frags.len(),
{
    if frags.len() == 0 {
        Seq::empty()
    } else {
        concat_frag_texts(frags.drop_last()) + frags.last().text
    }
}

/// What stripping does to one character: a line break becomes a space, the
/// ideographic space used as a manual separator disappears, everything else
/// stays.
pub open spec fn strip_char(c: char) -> Seq<char> {
    if c == '\n' {
        seq![' ']
    } else if c == '\u{3000}' {
        Seq::empty()
    } else {
        seq![c]
    }
}

/// The text with structural whitespace stripped, character by character.
pub open spec fn strip_chars(s: Seq<char>) -> Seq<char>
    decreases s.len(),
{
    if s.len() == 0 {
        Seq::empty()
    } else {
        strip_chars(s.drop_last()) + strip_char(s.last())
    }
}

proof fn lemma_strip_concat(a: Seq<char>, b: Seq<char>)
    ensures
        strip_chars(a + b) == strip_chars(a) + strip_chars(b),
    decreases b.len(),
{
    if b.len() == 0 {
        assert(a + b =~= a);
        assert(strip_chars(a) + strip_chars(b) =~= strip_chars(a));
    } else {
        assert((a + b).drop_last() =~= a + b.drop_last());
        lemma_strip_concat(a, b.drop_last());
        assert((a + b).last() == b.last());
        assert(strip_chars(a) + strip_chars(b) =~= (strip_chars(a) + strip_chars(b.drop_last()))
            + strip_char(b.last()));
    }
}

/// The composite tooltip text: written word, reading, gloss and difficulty
/// label, in a fixed frame a renderer can split apart.
pub open spec fn tooltip_spec(word: Seq<char>, l: LookupModel) -> Seq<char> {
    word + "["@ + l.kana + "::"@ + l.meaning + "::"@ + l.jlpt.spec_label() + "]"@
}

/// Build the composite tooltip text for a resolved word.
fn build_tooltip(word: &str, l: &DictLookup) -> (r: String)
    ensures
        r@ == tooltip_spec(word@, l@),
{
    let mut t: String = word.to_owned();
    t.append("[");
    t.append(l.kana.as_str());
    t.append("::");
    t.append(l.meaning.as_str());
    t.append("::");
    t.append(l.jlpt.label());
    t.append("]");
    proof {
        assert(t@ =~= tooltip_spec(word@, l@));
    }
    t
}

/// The fragment the transform emits for one token: plain for non-words,
/// unresolved words, single-character kana matches, and words too hard for
/// either threshold; otherwise the lemma with a tooltip when the level is at
/// or below the gloss threshold and a reading when it is at or below the
/// reading threshold.
pub open spec fn fragment_of_token(
    common: Seq<(Seq<char>, VocabModel)>,
    dict: GeneralDict,
    approximate: bool,
    japanese: JapaneseLanguageConfig,
    tok: TokenModel,
) -> FragModel {
    if !tok.is_word {
        FragModel::plain(tok.lemma)
    } else {
        match resolve_spec(common, dict, approximate, tok.lemma) {
            None => FragModel::plain(tok.lemma),
            Some(l) => {
                if l.is_kana && (trim_seq(tok.lemma).len() == 1 || trim_seq(l.kana).len() == 1) {
                    FragModel::plain(tok.lemma)
                } else if !l.jlpt.spec_le(japanese.spec_lowest_level()) {
                    FragModel::plain(tok.lemma)
                } else {
                    FragModel {
                        text: tok.lemma,
                        attributes: AttrModel {
                            preformatted: false,
                            italic: false,
                            bold: false,
                            heading: None,
                            link: None,
                            tooltip: if l.jlpt.spec_le(japanese.spec_definitions()) {
                                Some(tooltip_spec(tok.lemma, l))
                            } else {
                                None
                            },
                            annotation: if l.jlpt.spec_le(japanese.spec_furigana()) {
                                Some(l.kana)
                            } else {
                                None
                            },
                        },
                    }
                }
            },
        }
    }
}

/// The fragments the transform emits for a token run, one per token.
pub open spec fn annotate_tokens(
    common: Seq<(Seq<char>, VocabModel)>,
    dict: GeneralDict,
    approximate: bool,
    japanese: JapaneseLanguageConfig,
    toks: Seq<TokenModel>,
) -> Seq<FragModel> {
    Seq::new(toks.len(), |i: int| fragment_of_token(common, dict, approximate, japanese, toks[i]))
}

/// What the transform does to a text node's fragments: concatenate, strip
/// structural whitespace, tokenize, and emit one fragment per token.
pub open spec fn annotate_text_spec(
    common: Seq<(Seq<char>, VocabModel)>,
    dict: GeneralDict,
    approximate: bool,
    japanese: JapaneseLanguageConfig,
    frags: Seq<FragModel>,
) -> Seq<FragModel> {
    annotate_tokens(
        common,
        dict,
        approximate,
        japanese,
        tokens_of(strip_chars(concat_frag_texts(frags))),
    )
}

/// Whether `after` is what the transform makes of `before`: the same tree,
/// with each text node's fragments rewritten.
pub open spec fn transformed(
    common: Seq<(Seq<char>, VocabModel)>,
    dict: GeneralDict,
    approximate: bool,
    japanese: JapaneseLanguageConfig,
    before: Node,
    after: Node,
) -> bool
    decreases before,
{
    match (before, after) {
        (Node::Empty, Node::Empty) => true,
        (Node::Section(s), Node::Section(t)) => {
            &&& t.ordering == s.ordering
            &&& t.nodes@.len() == s.nodes@.len()
            &&& forall|i: int|
                0 <= i < s.nodes@.len() ==> transformed(
                    common,
                    dict,
                    approximate,
                    japanese,
                    #[trigger] s.nodes@[i],
                    t.nodes@[i],
                )
        },
        (Node::Text(x), Node::Text(y)) => frags_view(y.fragments@) == annotate_text_spec(
            common,
            dict,
            approximate,
            japanese,
            frags_view(x.fragments@),
        ),
        _ => false,
    }
}

/// The transform failed; it never does on a well-formed tree.
#[derive(Clone, Copy, Debug, PartialEq, Eq, Structural)]
pub enum AnnotationError {
    /// Never produced: the transform is total.
    Internal,
}

fn collect_stripped(fragments: &Vec<TextFragment>) -> (r: Vec<char>)
    ensures
        r@ == strip_chars(concat_frag_texts(frags_view(fragments@))),
{
    let ghost fv = frags_view(fragments@);
    let mut r: Vec<char> = Vec::new();
    proof {
        assert(fv.take(0) =~= Seq::<FragModel>::empty());
        assert(r@ =~= strip_chars(concat_frag_texts(fv.take(0))));
    }
    for i in 0..fragments.len()
        invariant
            fv == frags_view(fragments@),
            r@ == strip_chars(concat_frag_texts(fv.take(i as int))),
    {
        let chars = str_chars(fragments[i].text.as_str());
        let ghost base = concat_frag_texts(fv.take(i as int));
        proof {
            assert(fv[i as int] == fragments@[i as int]@);
            assert(chars@ == fv[i as int].text);
            assert(chars@.take(0) =~= Seq::<char>::empty());
            lemma_strip_concat(base, chars@.take(0));
            assert(base + chars@.take(0) =~= base);
        }
        for j in 0..chars.len()
            invariant
                fv == frags_view(fragments@),
                chars@ == fv[i as int].text,
                base == concat_frag_texts(fv.take(i as int)),
                i < fragments@.len(),
                r@ == strip_chars(base + chars@.take(j as int)),
        {
            let c = chars[j];
            proof {
                assert((base + chars@.take(j + 1)).drop_last() =~= base + chars@.take(j as int));
                assert((base + chars@.take(j + 1)).last() == chars@[j as int]);
            }
            if c == '\n' {
                r.push(' ');
            } else if c == '\u{3000}' {
            } else {
                r.push(c);
            }
            proof {
                assert(r@ =~= strip_chars(base + chars@.take(j as int)) + strip_char(
                    chars@[j as int],
                ));
            }
        }
        proof {
            assert(chars@.take(chars@.len() as int) =~= chars@);
            assert(fv.take(i + 1).drop_last() =~= fv.take(i as int));
            assert(fv.take(i + 1).last() == fv[i as int]);
            assert(concat_frag_texts(fv.take(i + 1)) == base + fv[i as int].text);
        }
    }
    proof {
        assert(fv.take(fv.len() as int) =~= fv);
    }
    r
}

impl DictDb {
    /// The fragment emitted for one token, under the given configuration.
    pub fn token_fragment(&self, token: &Token, config: &Config) -> (r: TextFragment)
        ensures
            r@ == fragment_of_token(
                self.common_view(),
                self.general_dict(),
                self.approximate(),
                config.language.japanese,
                token@,
            ),
    {
        if !token.is_word {
            return TextFragment::new(token.lemma.clone(), None);
        }
        match self.lookup(token.lemma.as_str()) {
            None => TextFragment::new(token.lemma.clone(), None),
            Some(lookup) => {
                if lookup.is_kana && (character_count(token.lemma.as_str()) == 1
                    || character_count(lookup.kana.as_str()) == 1) {
                    return TextFragment::new(token.lemma.clone(), None);
                }
                if !lookup.jlpt.le(&config.language.japanese.lowest_level()) {
                    return TextFragment::new(token.lemma.clone(), None);
                }
                let mut attributes = TextAttributes::new();
                if lookup.jlpt.le(&config.language.japanese.definitions()) {
                    attributes.tooltip = Some(build_tooltip(token.lemma.as_str(), &lookup));
                }
                if lookup.jlpt.le(&config.language.japanese.furigana()) {
                    attributes.annotation = Some(lookup.kana.clone());
                }
                TextFragment::new(token.lemma.clone(), Some(attributes))
            },
        }
    }

    /// The new fragment list for a text node.
    fn annotate_fragments(&self, fragments: &Vec<TextFragment>, config: &Config) -> (r: Vec<
        TextFragment,
    >)
        ensures
            frags_view(r@) == annotate_text_spec(
                self.common_view(),
                self.general_dict(),
                self.approximate(),
                config.language.japanese,
                frags_view(fragments@),
            ),
    {
        let total = collect_stripped(fragments);
        let tokens = tokenize_chars(&total);
        let ghost tm = tokens@.map_values(|t: Token| t@);
        let mut out: Vec<TextFragment> = Vec::new();
        for i in 0..tokens.len()
            invariant
                tm == tokens@.map_values(|t: Token| t@),
                tm == tokens_of(total@),
                total@ == strip_chars(concat_frag_texts(frags_view(fragments@))),
                out@.len() == i,
                forall|j: int|
                    0 <= j < i ==> (#[trigger] out@[j])@ == fragment_of_token(
                        self.common_view(),
                        self.general_dict(),
                        self.approximate(),
                        config.language.japanese,
                        tm[j],
                    ),
        {
            proof {
                assert(tm[i as int] == tokens@[i as int]@);
            }
            out.push(self.token_fragment(&tokens[i], config));
        }
        proof {
            assert(frags_view(out@) =~= annotate_text_spec(
                self.common_view(),
                self.general_dict(),
                self.approximate(),
                config.language.japanese,
                frags_view(fragments@),
            ));
        }
        out
    }

    fn transform_node(&self, node: &Node, config: &Config) -> (r: Node)
        ensures
            transformed(
                self.common_view(),
                self.general_dict(),
                self.approximate(),
                config.language.japanese,
                *node,
                r,
            ),
        decreases *node,
    {
        match node {
            Node::Empty => Node::Empty,
            Node::Text(text) => Node::Text(
                Text { fragments: self.annotate_fragments(&text.fragments, config) },
            ),
            Node::Section(section) => {
                let mut nodes: Vec<Node> = Vec::new();
                for i in 0..section.nodes.len()
                    invariant
                        nodes@.len() == i,
                        *node == Node::Section(*section),
                        forall|j: int|
                            0 <= j < i ==> transformed(
                                self.common_view(),
                                self.general_dict(),
                                self.approximate(),
                                config.language.japanese,
                                #[trigger] section.nodes@[j],
                                nodes@[j],
                            ),
                {
                    proof {
                        assert(decreases_to!(*node => (*node)->Section_0));
                        assert(decreases_to!((*node)->Section_0 => (*node)->Section_0.nodes));
                        assert(decreases_to!(
                            (*node)->Section_0.nodes => (*node)->Section_0.nodes@[i as int]
                        ));
                        assert((*node)->Section_0.nodes@[i as int] == section.nodes@[i as int]);
                    }
                    let child = self.transform_node(&section.nodes[i], config);
                    nodes.push(child);
                }
                Node::Section(Section { nodes, ordering: section.ordering })
            },
        }
    }

    /// Annotate a document tree in place: recurse depth-first through
    /// sections, leave empty nodes alone, and rewrite the fragment list of
    /// every text node. Total over any tree: the result is always `Ok`, and
    /// the tree keeps its shape.
    pub fn transform(&self, node: &mut Node, config: &Config) -> (r: Result<(), AnnotationError>)
        ensures
            r is Ok,
            transformed(
                self.common_view(),
                self.general_dict(),
                self.approximate(),
                config.language.japanese,
                *old(node),
                *final(node),
            ),
            crate::node::same_shape(*old(node), *final(node)),
    {
        let new = self.transform_node(node, config);
        proof {
            crate::laws::lemma_transform_preserves_shape(
                self.common_view(),
                self.general_dict(),
                self.approximate(),
                config.language.japanese,
                *node,
                new,
            );
        }
        *node = new;
        Ok(())
    }
}

/// Annotate a document tree in place against a store and a configuration.
/// The tree keeps its shape: only the fragments of text nodes change.
pub fn annotate(tree: &mut Node, store: &DictDb, config: &Config) -> (r: Result<
    (),
    AnnotationError,
>)
    ensures
        r is Ok,
        transformed(
            store.common_view(),
            store.general_dict(),
            store.approximate(),
            config.language.japanese,
            *old(tree),
            *final(tree),
        ),
        crate::node::same_shape(*old(tree), *final(tree)),
{
    store.transform(tree, config)
}

} // verus!
