//! Vocabulary records: curated entries from the graded source lists and the
//! transient result a lookup hands to the transform.

use vstd::prelude::*;

use crate::level::JlptLevel;
use crate::level::spec_level_of_u8;
use crate::text::str_chars;

verus! {

/// A curated common word: written form, reading, gloss and numeric grade.
#[derive(Clone, Debug)]
pub struct CommonVocab {
    /// The written form (headword).
    pub word: String,
    /// The kana reading.
    pub reading: String,
    /// The gloss.
    pub meaning: String,
    /// The numeric grade, as `JlptLevel::from` reads it.
    pub level: u8,
}

/// Mathematical model of a curated entry.
pub struct VocabModel {
    pub word: Seq<char>,
    pub reading: Seq<char>,
    pub meaning: Seq<char>,
    pub level: u8,
}

impl View for CommonVocab {
    type V = VocabModel;

    open spec fn view(&self) -> VocabModel {
        VocabModel {
            word: self.word@,
            reading: self.reading@,
            meaning: self.meaning@,
            level: self.level,
        }
    }
}

/// A resolved lookup: consumed immediately by the transform, not persisted.
#[derive(Clone, Debug)]
pub struct DictLookup {
    /// Whether the trimmed queried word was kana-only. The referent is the
    /// word as it was looked up, not the matched entry's written form: for a
    /// word found under its reading key the two can differ.
    pub is_kana: bool,
    /// The reading to place above the word.
    pub kana: String,
    /// The gloss.
    pub meaning: String,
    /// The difficulty level; `Ungraded` for raw dictionary hits.
    pub jlpt: JlptLevel,
}

/// Mathematical model of a resolved lookup.
pub struct LookupModel {
    pub is_kana: bool,
    pub kana: Seq<char>,
    pub meaning: Seq<char>,
    pub jlpt: JlptLevel,
}

impl View for DictLookup {
    type V = LookupModel;

    open spec fn view(&self) -> LookupModel {
        LookupModel {
            is_kana: self.is_kana,
            kana: self.kana@,
            meaning: self.meaning@,
            jlpt: self.jlpt,
        }
    }
}

/// What a lookup derived from a curated entry reports: the entry's reading,
/// gloss and graded level, plus whether the queried word was kana-only.
pub open spec fn lookup_of_vocab(v: VocabModel, is_kana: bool) -> LookupModel {
    LookupModel {
        is_kana,
        kana: v.reading,
        meaning: v.meaning,
        jlpt: spec_level_of_u8(v.level),
    }
}

impl DictLookup {
    /// The lookup derived from a curated entry.
    pub fn of_common(value: &CommonVocab, is_kana: bool) -> (r: Self)
        ensures
            r@ == lookup_of_vocab(value@, is_kana),
    {
        DictLookup {
            is_kana,
            kana: value.reading.clone(),
            meaning: value.meaning.clone(),
            jlpt: JlptLevel::from(value.level),
        }
    }
}

/// A row of a JLPT vocabulary list.
#[derive(Clone, Debug)]
pub struct JlptEntry {
    /// The written form.
    pub expression: String,
    /// The kana reading.
    pub reading: String,
    /// The gloss.
    pub meaning: String,
    /// Source tags; carried through but unused.
    pub tags: String,
    /// Source row identifier; carried through but unused.
    pub guid: String,
    /// The numeric grade, set from the list the row came from.
    pub level: u8,
}

impl JlptEntry {
    /// The curated entry this row contributes.
    pub fn into_common(self) -> (r: CommonVocab)
        ensures
            r@.word == self.expression@,
            r@.reading == self.reading@,
            r@.meaning == self.meaning@,
            r@.level == self.level,
    {
        CommonVocab {
            word: self.expression,
            reading: self.reading,
            meaning: self.meaning,
            level: self.level,
        }
    }
}

/// A row of the kore vocabulary list.
#[derive(Clone, Debug)]
pub struct KoreEntry {
    /// The written form.
    pub expression: String,
    /// Position in the frequency list; carried through but unused.
    pub core_index: usize,
    /// The gloss.
    pub meaning: String,
    /// The kana reading.
    pub reading: String,
    /// The source's JLPT tag, e.g. "jlpt 3"; its last digit encodes the grade.
    pub _jlpt: String,
}

/// What `KoreEntry::level` returns: the source tags the easiest words
/// "jlpt 4" down to the hardest "jlpt 0", shifted by one from the numeric
/// grade; anything else is graded hardest.
pub open spec fn kore_level_spec(jlpt: Seq<char>) -> u8 {
    let last = if jlpt.len() == 0 {
        '0'
    } else {
        jlpt[jlpt.len() - 1]
    };
    match last {
        '0' => 1u8,
        '1' => 2u8,
        '2' => 3u8,
        '3' => 4u8,
        '4' => 5u8,
        _ => 1u8,
    }
}

impl KoreEntry {
    /// The numeric grade encoded in the row's JLPT tag.
    pub fn level(&self) -> (r: u8)
        ensures
            r == kore_level_spec(self._jlpt@),
    {
        let chars = str_chars(self._jlpt.as_str());
        let last: char = if chars.len() == 0 {
            '0'
        } else {
            chars[chars.len() - 1]
        };
        match last {
            '0' => 1u8,
            '1' => 2u8,
            '2' => 3u8,
            '3' => 4u8,
            '4' => 5u8,
            _ => 1u8,
        }
    }

    /// The curated entry this row contributes.
    pub fn into_common(self) -> (r: CommonVocab)
        ensures
            r@.word == self.expression@,
            r@.reading == self.reading@,
            r@.meaning == self.meaning@,
            r@.level == kore_level_spec(self._jlpt@),
    {
        let level = self.level();
        CommonVocab {
            word: self.expression,
            reading: self.reading,
            meaning: self.meaning,
            level,
        }
    }
}

/// Whether `c` is an ASCII decimal digit.
pub open spec fn char_is_digit(c: char) -> bool {
    0x30 <= c as u32 <= 0x39
}

/// The digit value of `c`, counted from '0'.
pub open spec fn digit_val(c: char) -> int {
    c as u32 - 0x30
}

/// Whether the text is made of ASCII decimal digits only.
pub open spec fn seq_all_digits(s: Seq<char>) -> bool {
    forall|i: int| 0 <= i < s.len() ==> char_is_digit(#[trigger] s[i])
}

/// The number the digit string denotes, most significant digit first.
pub open spec fn digits_val(s: Seq<char>) -> int
    decreases s.len(),
{
    if s.len() == 0 {
        0
    } else {
        digits_val(s.drop_last()) * 10 + digit_val(s.last())
    }
}

proof fn lemma_digits_val_nonneg(s: Seq<char>)
    requires
        seq_all_digits(s),
    ensures
        digits_val(s) >= 0,
    decreases s.len(),
{
    if s.len() > 0 {
        assert(seq_all_digits(s.drop_last()));
        lemma_digits_val_nonneg(s.drop_last());
    }
}

proof fn lemma_digits_val_prefix_le(s: Seq<char>, i: int)
    requires
        seq_all_digits(s),
        0 <= i <= s.len(),
    ensures
        digits_val(s.take(i)) <= digits_val(s),
    decreases s.len() - i,
{
    if i < s.len() {
        assert(s.take(i + 1).drop_last() =~= s.take(i));
        assert(s.take(i + 1).last() == s[i]);
        assert(seq_all_digits(s.take(i)));
        lemma_digits_val_nonneg(s.take(i));
        assert(digits_val(s.take(i + 1)) == digits_val(s.take(i)) * 10 + digit_val(s[i]));
        assert(digits_val(s.take(i)) <= digits_val(s.take(i + 1)));
        lemma_digits_val_prefix_le(s, i + 1);
        assert(s.take(s.len() as int) =~= s);
    } else {
        assert(s.take(i) =~= s);
    }
}

/// Parse a non-empty ASCII decimal string into a `usize`; nothing else
/// parses, and a value over `usize::MAX` does not parse.
pub fn parse_usize(s: &str) -> (r: Option<usize>)
    ensures
        match r {
            Some(v) => s@.len() > 0 && seq_all_digits(s@) && v == digits_val(s@),
            None => s@.len() == 0 || !seq_all_digits(s@) || digits_val(s@) > usize::MAX,
        },
{
    let chars = str_chars(s);
    if chars.len() == 0 {
        return None;
    }
    let mut acc: usize = 0;
    for i in 0..chars.len()
        invariant
            chars@ == s@,
            seq_all_digits(s@.take(i as int)),
            acc == digits_val(s@.take(i as int)),
    {
        let u = chars[i] as u32;
        if u < 0x30 || u > 0x39 {
            return None;
        }
        let d = (u - 0x30) as usize;
        proof {
            assert(s@.take(i + 1).drop_last() =~= s@.take(i as int));
            assert(s@.take(i + 1).last() == s@[i as int]);
        }
        let next = match acc.checked_mul(10) {
            Some(x) => x.checked_add(d),
            None => None,
        };
        match next {
            Some(v) => {
                acc = v;
            },
            None => {
                proof {
                    assert(digits_val(s@.take(i + 1)) > usize::MAX);
                    if seq_all_digits(s@) {
                        lemma_digits_val_prefix_le(s@, i + 1);
                    }
                }
                return None;
            },
        }
    }
    proof {
        assert(s@.take(s@.len() as int) =~= s@);
    }
    Some(acc)
}

} // verus!
