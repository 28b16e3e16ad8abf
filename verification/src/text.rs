//! Character classification for Japanese text.
//!
//! A word is skipped, annotated, or looked up depending on whether it is
//! kana-only, contains kanji, or is non-Japanese; the predicates here state
//! those classes exactly, character range by character range.

use vstd::prelude::*;

verus! {

/// Whether `c` lies in one of the unicode ranges used by Japanese:
/// kana, CJK ideographs, zenkaku forms and Japanese punctuation.
pub open spec fn char_is_japanese(c: char) -> bool {
    let u = c as u32;
    ||| 0x3000 <= u <= 0x303F  // CJK symbols and punctuation
    ||| 0x3040 <= u <= 0x309F  // hiragana
    ||| 0x30A0 <= u <= 0x30FF  // katakana, incl. katakana punctuation
    ||| 0x3400 <= u <= 0x4DBF  // rare CJK ideographs
    ||| 0x4E00 <= u <= 0x9FFF  // common CJK ideographs
    ||| 0xFF01 <= u <= 0xFF0F  // zenkaku punctuation
    ||| 0xFF10 <= u <= 0xFF19  // zenkaku numbers
    ||| 0xFF1A <= u <= 0xFF1F  // zenkaku punctuation
    ||| 0xFF21 <= u <= 0xFF3A  // zenkaku uppercase
    ||| 0xFF3B <= u <= 0xFF3F  // zenkaku punctuation
    ||| 0xFF41 <= u <= 0xFF5A  // zenkaku lowercase
    ||| 0xFF5B <= u <= 0xFF60  // zenkaku punctuation
    ||| 0xFF61 <= u <= 0xFF65  // kana punctuation
    ||| 0xFF66 <= u <= 0xFF9F  // halfwidth katakana
    ||| 0xFFE0 <= u <= 0xFFEE  // zenkaku symbols and currency
}

/// Whether `c` is a CJK ideograph (kanji).
pub open spec fn char_is_kanji(c: char) -> bool {
    0x4E00 <= c as u32 <= 0x9FAF
}

/// Whether `c` has the unicode White_Space property.
pub open spec fn char_is_space(c: char) -> bool {
    let u = c as u32;
    ||| 0x09 <= u <= 0x0D
    ||| u == 0x20
    ||| u == 0x85
    ||| u == 0xA0
    ||| u == 0x1680
    ||| 0x2000 <= u <= 0x200A
    ||| u == 0x2028
    ||| u == 0x2029
    ||| u == 0x202F
    ||| u == 0x205F
    ||| u == 0x3000
}

/// Whether `c` is an ASCII Latin letter or decimal digit.
pub open spec fn char_is_ascii_alnum(c: char) -> bool {
    let u = c as u32;
    ||| 0x30 <= u <= 0x39  // digits
    ||| 0x41 <= u <= 0x5A  // uppercase letters
    ||| 0x61 <= u <= 0x7A  // lowercase letters
}

/// Whether the text is non-empty and made of Japanese characters only.
pub open spec fn seq_is_japanese(s: Seq<char>) -> bool {
    s.len() > 0 && forall|i: int| 0 <= i < s.len() ==> char_is_japanese(#[trigger] s[i])
}

/// Whether the text contains at least one kanji.
pub open spec fn seq_contains_kanji(s: Seq<char>) -> bool {
    exists|i: int| 0 <= i < s.len() && char_is_kanji(#[trigger] s[i])
}

/// Whether the text is Japanese but free of kanji: kana, zenkaku forms and
/// Japanese punctuation only.
pub open spec fn seq_is_kana(s: Seq<char>) -> bool {
    seq_is_japanese(s) && !seq_contains_kanji(s)
}

/// Whether the text is non-Japanese (Latin script, numerals, and the like):
/// neither kana-only nor kanji-bearing. Such words are never annotated.
pub open spec fn seq_is_english(s: Seq<char>) -> bool {
    !seq_is_kana(s) && !seq_contains_kanji(s)
}

/// The text with leading White_Space characters removed.
pub open spec fn trim_start_seq(s: Seq<char>) -> Seq<char>
    decreases s.len(),
{
    if s.len() == 0 {
        s
    } else if char_is_space(s[0]) {
        trim_start_seq(s.drop_first())
    } else {
        s
    }
}

/// The text with trailing White_Space characters removed.
pub open spec fn trim_end_seq(s: Seq<char>) -> Seq<char>
    decreases s.len(),
{
    if s.len() == 0 {
        s
    } else if char_is_space(s[s.len() - 1]) {
        trim_end_seq(s.drop_last())
    } else {
        s
    }
}

/// The text with leading and trailing White_Space characters removed.
pub open spec fn trim_seq(s: Seq<char>) -> Seq<char> {
    trim_end_seq(trim_start_seq(s))
}

/// Relies on wana_kana's `is_japanese`: true iff the string is non-empty and
/// every character lies in the crate's Japanese unicode ranges.
#[verifier::external_body]
fn ext_is_japanese(s: &str) -> (r: bool)
    ensures
        r == seq_is_japanese(s@),
{
    wana_kana::IsJapaneseStr::is_japanese(&s)
}

/// Relies on wana_kana's `contains_kanji`: true iff some character lies in
/// the CJK ideograph range 0x4E00..=0x9FAF.
#[verifier::external_body]
fn ext_contains_kanji(s: &str) -> (r: bool)
    ensures
        r == seq_contains_kanji(s@),
{
    wana_kana::IsJapaneseStr::contains_kanji(&s)
}

/// Relies on `str::trim`: removes leading and trailing characters with the
/// unicode White_Space property.
#[verifier::external_body]
pub(crate) fn trim_str(s: &str) -> (r: &str)
    ensures
        r@ == trim_seq(s@),
{
    s.trim()
}

/// Whether the word is wholly Japanese text (kana, kanji, zenkaku forms and
/// Japanese punctuation, and nothing else).
pub fn is_japanese(s: &str) -> (r: bool)
    ensures
        r == seq_is_japanese(s@),
{
    ext_is_japanese(s)
}

/// Whether the word is kana-only Japanese text.
pub fn is_kana(s: &str) -> (r: bool)
    ensures
        r == seq_is_kana(s@),
{
    ext_is_japanese(s) && !ext_contains_kanji(s)
}

/// Whether the word contains kanji.
pub fn is_kanji(s: &str) -> (r: bool)
    ensures
        r == seq_contains_kanji(s@),
{
    ext_contains_kanji(s)
}

/// Whether the word is non-Japanese text (Latin script, numerals, etc.).
pub fn is_english(s: &str) -> (r: bool)
    ensures
        r == seq_is_english(s@),
{
    !is_kana(s) && !is_kanji(s)
}

/// The characters of `s`, in order.
pub fn str_chars(s: &str) -> (r: Vec<char>)
    ensures
        r@ == s@,
{
    let mut r: Vec<char> = Vec::new();
    for c in it: s.chars()
        invariant
            it.seq() == s@,
            r@ == it.seq().subrange(0, it.index() as int),
    {
        r.push(c);
    }
    proof {
        assert(r@ =~= s@);
    }
    r
}

/// The number of characters of the word once trimmed.
pub fn character_count(s: &str) -> (r: usize)
    ensures
        r == trim_seq(s@).len(),
{
    let t = trim_str(s);
    let chars = str_chars(t);
    chars.len()
}

} // verus!
