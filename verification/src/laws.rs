//! Laws of the annotation engine, stated and proved over the same spec
//! functions that the executable functions' contracts use.

use vstd::prelude::*;

use crate::config::JapaneseLanguageConfig;
use crate::dict::GeneralDict;
use crate::dict::general_deinflect;
use crate::node::FragModel;
use crate::node::Node;
use crate::node::same_shape;
use crate::store::find_common;
use crate::store::first_key_in;
use crate::store::resolve_spec;
use crate::store::scan_override;
use crate::text::char_is_ascii_alnum;
use crate::text::char_is_japanese;
use crate::text::char_is_kanji;
use crate::text::seq_is_english;
use crate::text::seq_is_japanese;
use crate::text::seq_is_kana;
use crate::text::trim_end_seq;
use crate::text::trim_seq;
use crate::text::trim_start_seq;
use crate::transform::TokenModel;
use crate::transform::fragment_of_token;
use crate::transform::transformed;
use crate::vocab::VocabModel;
use crate::vocab::lookup_of_vocab;

verus! {

/// Single-kana skip: a word token whose trimmed lemma is kana-only and
/// exactly one character long always yields a plain fragment, regardless of
/// what the override mapping or the general dictionary contain.
pub proof fn lemma_single_kana_skip(
    common: Seq<(Seq<char>, VocabModel)>,
    dict: GeneralDict,
    approximate: bool,
    japanese: JapaneseLanguageConfig,
    tok: TokenModel,
)
    requires
        tok.is_word,
        seq_is_kana(trim_seq(tok.lemma)),
        trim_seq(tok.lemma).len() == 1,
    ensures
        fragment_of_token(common, dict, approximate, japanese, tok) == FragModel::plain(
            tok.lemma,
        ),
{
    let t = trim_seq(tok.lemma);
    assert(!seq_is_english(t));
    match resolve_spec(common, dict, approximate, tok.lemma) {
        None => {},
        Some(l) => {
            assert(l.is_kana == seq_is_kana(t));
        },
    }
}

/// Override priority: a Japanese word whose trimmed form is a key of the
/// override mapping resolves to that entry's reading, gloss and graded
/// level, whatever the general dictionary holds for it.
pub proof fn lemma_override_priority(
    common: Seq<(Seq<char>, VocabModel)>,
    dict: GeneralDict,
    approximate: bool,
    word: Seq<char>,
    v: VocabModel,
)
    requires
        !seq_is_english(trim_seq(word)),
        find_common(common, trim_seq(word)) == Some(v),
    ensures
        resolve_spec(common, dict, approximate, word) == Some(
            lookup_of_vocab(v, seq_is_kana(trim_seq(word))),
        ),
{
}

/// Threshold monotonicity: loosening the gloss threshold, with the reading
/// threshold fixed, never removes a tooltip; the tooltip text itself is
/// unchanged.
pub proof fn lemma_threshold_monotonic(
    common: Seq<(Seq<char>, VocabModel)>,
    dict: GeneralDict,
    approximate: bool,
    tighter: JapaneseLanguageConfig,
    looser: JapaneseLanguageConfig,
    tok: TokenModel,
)
    requires
        tighter.spec_definitions().spec_le(looser.spec_definitions()),
        looser.spec_furigana() == tighter.spec_furigana(),
        fragment_of_token(common, dict, approximate, tighter, tok).attributes.tooltip is Some,
    ensures
        fragment_of_token(common, dict, approximate, looser, tok).attributes.tooltip
            == fragment_of_token(common, dict, approximate, tighter, tok).attributes.tooltip,
{
}

proof fn lemma_first_key_in_found(
    common: Seq<(Seq<char>, VocabModel)>,
    keys: Seq<Seq<char>>,
    j: int,
)
    requires
        0 <= j < keys.len(),
        find_common(common, keys[j]) is Some,
    ensures
        first_key_in(common, keys) is Some,
    decreases keys.len(),
{
    if find_common(common, keys[0]) is Some {
    } else {
        assert(j != 0);
        assert(keys.drop_first()[j - 1] == keys[j]);
        lemma_first_key_in_found(common, keys.drop_first(), j - 1);
    }
}

proof fn lemma_first_key_in_source(
    common: Seq<(Seq<char>, VocabModel)>,
    keys: Seq<Seq<char>>,
    v: VocabModel,
)
    requires
        first_key_in(common, keys) == Some(v),
    ensures
        exists|k: int| 0 <= k < keys.len() && find_common(common, #[trigger] keys[k]) == Some(v),
    decreases keys.len(),
{
    if find_common(common, keys[0]) is Some {
        assert(find_common(common, keys[0]) == Some(v));
    } else {
        lemma_first_key_in_source(common, keys.drop_first(), v);
        let k = choose|k: int|
            0 <= k < keys.drop_first().len() && find_common(
                common,
                #[trigger] keys.drop_first()[k],
            ) == Some(v);
        assert(keys[k + 1] == keys.drop_first()[k]);
    }
}

proof fn lemma_scan_override_found(
    common: Seq<(Seq<char>, VocabModel)>,
    cands: Seq<crate::dict::CandModel>,
    i: int,
    j: int,
)
    requires
        0 <= i < cands.len(),
        (0 <= j < cands[i].kanji.len() && find_common(common, cands[i].kanji[j]) is Some) || (0
            <= j < cands[i].kana.len() && find_common(common, cands[i].kana[j]) is Some),
    ensures
        scan_override(common, cands) is Some,
    decreases cands.len(),
{
    if first_key_in(common, cands[0].kanji) is Some {
    } else if first_key_in(common, cands[0].kana) is Some {
    } else {
        if i == 0 {
            if 0 <= j < cands[0].kanji.len() && find_common(common, cands[0].kanji[j]) is Some {
                lemma_first_key_in_found(common, cands[0].kanji, j);
            } else {
                lemma_first_key_in_found(common, cands[0].kana, j);
            }
            assert(false);
        } else {
            assert(cands.drop_first()[i - 1] == cands[i]);
            lemma_scan_override_found(common, cands.drop_first(), i - 1, j);
        }
    }
}

proof fn lemma_scan_override_source(
    common: Seq<(Seq<char>, VocabModel)>,
    cands: Seq<crate::dict::CandModel>,
    v: VocabModel,
)
    requires
        scan_override(common, cands) == Some(v),
    ensures
        exists|k: Seq<char>| find_common(common, k) == Some(v),
    decreases cands.len(),
{
    if first_key_in(common, cands[0].kanji) is Some {
        lemma_first_key_in_source(common, cands[0].kanji, v);
        let k = choose|k: int|
            0 <= k < cands[0].kanji.len() && find_common(
                common,
                #[trigger] cands[0].kanji[k],
            ) == Some(v);
        assert(find_common(common, cands[0].kanji[k]) == Some(v));
    } else if first_key_in(common, cands[0].kana) is Some {
        lemma_first_key_in_source(common, cands[0].kana, v);
        let k = choose|k: int|
            0 <= k < cands[0].kana.len() && find_common(common, #[trigger] cands[0].kana[k])
                == Some(v);
        assert(find_common(common, cands[0].kana[k]) == Some(v));
    } else {
        lemma_scan_override_source(common, cands.drop_first(), v);
    }
}

/// Deinflection override preference: a Japanese word that is not itself a
/// key of the override mapping, but whose deinflected dictionary candidates
/// expose a written or reading form that is, resolves to an override entry —
/// its graded level and gloss — and not to the raw dictionary data.
pub proof fn lemma_deinflection_override_preference(
    common: Seq<(Seq<char>, VocabModel)>,
    dict: GeneralDict,
    word: Seq<char>,
    i: int,
    j: int,
)
    requires
        seq_is_japanese(trim_seq(word)),
        find_common(common, trim_seq(word)) is None,
        0 <= i < general_deinflect(dict, trim_seq(word)).len(),
        ({
            let cand = general_deinflect(dict, trim_seq(word))[i];
            (0 <= j < cand.kanji.len() && find_common(common, cand.kanji[j]) is Some) || (0 <= j
                < cand.kana.len() && find_common(common, cand.kana[j]) is Some)
        }),
    ensures
        ({
            let v = scan_override(common, general_deinflect(dict, trim_seq(word)));
            &&& v is Some
            &&& resolve_spec(common, dict, true, word) == Some(
                lookup_of_vocab(v->Some_0, seq_is_kana(trim_seq(word))),
            )
            &&& exists|k: Seq<char>| find_common(common, k) == Some(v->Some_0)
        }),
{
    let t = trim_seq(word);
    assert(!seq_is_english(t));
    let cands = general_deinflect(dict, t);
    lemma_scan_override_found(common, cands, i, j);
    let v = scan_override(common, cands)->Some_0;
    lemma_scan_override_source(common, cands, v);
    assert(resolve_spec(common, dict, true, word) == Some(
        lookup_of_vocab(v, seq_is_kana(t)),
    ));
}

proof fn lemma_trim_start_suffix(s: Seq<char>)
    ensures
        exists|a: int| 0 <= a <= s.len() && trim_start_seq(s) == #[trigger] s.skip(a),
    decreases s.len(),
{
    if s.len() == 0 {
        assert(trim_start_seq(s) == s.skip(0));
    } else if crate::text::char_is_space(s[0]) {
        lemma_trim_start_suffix(s.drop_first());
        let a = choose|a: int|
            0 <= a <= s.drop_first().len() && trim_start_seq(s.drop_first())
                == #[trigger] s.drop_first().skip(a);
        assert(s.drop_first().skip(a) =~= s.skip(a + 1));
        assert(trim_start_seq(s) == s.skip(a + 1));
    } else {
        assert(trim_start_seq(s) == s.skip(0));
    }
}

proof fn lemma_trim_end_prefix(s: Seq<char>)
    ensures
        exists|b: int| 0 <= b <= s.len() && trim_end_seq(s) == #[trigger] s.take(b),
    decreases s.len(),
{
    if s.len() == 0 {
        assert(trim_end_seq(s) == s.take(0));
    } else if crate::text::char_is_space(s[s.len() - 1]) {
        lemma_trim_end_prefix(s.drop_last());
        let b = choose|b: int|
            0 <= b <= s.drop_last().len() && trim_end_seq(s.drop_last()) == #[trigger] s.drop_last(
            ).take(b);
        assert(s.drop_last() =~= s.take(s.len() - 1));
        assert(s.drop_last().take(b) =~= s.take(b));
        assert(trim_end_seq(s) == s.take(b));
    } else {
        assert(trim_end_seq(s) =~= s.take(s.len() as int));
    }
}

/// Every character of the trimmed text is a character of the text.
proof fn lemma_trim_chars_from(s: Seq<char>, i: int)
    requires
        0 <= i < trim_seq(s).len(),
    ensures
        exists|j: int| 0 <= j < s.len() && trim_seq(s)[i] == s[j],
{
    lemma_trim_start_suffix(s);
    let a = choose|a: int| 0 <= a <= s.len() && trim_start_seq(s) == #[trigger] s.skip(a);
    lemma_trim_end_prefix(s.skip(a));
    let b = choose|b: int|
        0 <= b <= s.skip(a).len() && trim_end_seq(s.skip(a)) == #[trigger] s.skip(a).take(b);
    assert(trim_seq(s)[i] == s.skip(a).take(b)[i]);
    assert(s.skip(a).take(b)[i] == s[a + i]);
}

/// Non-target-language passthrough: a token made purely of ASCII Latin
/// letters and digits always yields a plain fragment.
pub proof fn lemma_latin_passthrough(
    common: Seq<(Seq<char>, VocabModel)>,
    dict: GeneralDict,
    approximate: bool,
    japanese: JapaneseLanguageConfig,
    tok: TokenModel,
)
    requires
        forall|i: int| 0 <= i < tok.lemma.len() ==> char_is_ascii_alnum(#[trigger] tok.lemma[i]),
    ensures
        fragment_of_token(common, dict, approximate, japanese, tok) == FragModel::plain(
            tok.lemma,
        ),
{
    if tok.is_word {
        let t = trim_seq(tok.lemma);
        assert forall|i: int| 0 <= i < t.len() implies !char_is_japanese(#[trigger] t[i])
            && !char_is_kanji(t[i]) by {
            lemma_trim_chars_from(tok.lemma, i);
            let j = choose|j: int| 0 <= j < tok.lemma.len() && t[i] == tok.lemma[j];
            assert(char_is_ascii_alnum(tok.lemma[j]));
        }
        assert(!seq_is_kana(t));
        assert(!crate::text::seq_contains_kanji(t));
        assert(seq_is_english(t));
        assert(resolve_spec(common, dict, approximate, tok.lemma) is None);
    }
}

/// Round-trip shape preservation: the transform never changes the number or
/// order of nodes; the output tree has the same shape as the input, only the
/// fragments of text nodes differ.
pub proof fn lemma_transform_preserves_shape(
    common: Seq<(Seq<char>, VocabModel)>,
    dict: GeneralDict,
    approximate: bool,
    japanese: JapaneseLanguageConfig,
    before: Node,
    after: Node,
)
    requires
        transformed(common, dict, approximate, japanese, before, after),
    ensures
        same_shape(before, after),
    decreases before,
{
    match (before, after) {
        (Node::Section(s), Node::Section(t)) => {
            assert forall|i: int| 0 <= i < s.nodes@.len() implies same_shape(
                #[trigger] s.nodes@[i],
                t.nodes@[i],
            ) by {
                assert(decreases_to!(before => before->Section_0));
                assert(decreases_to!(before->Section_0 => before->Section_0.nodes));
                assert(decreases_to!(
                    before->Section_0.nodes => before->Section_0.nodes@[i]
                ));
                lemma_transform_preserves_shape(
                    common,
                    dict,
                    approximate,
                    japanese,
                    s.nodes@[i],
                    t.nodes@[i],
                );
            }
        },
        _ => {},
    }
}

} // verus!
