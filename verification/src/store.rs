//! The lexical store: curated graded lists merged into an override mapping,
//! plus the general dictionary, and the resolver that serves one word.

use vstd::prelude::*;

use crate::config::Config;
use crate::config::LanguageConfig;
use crate::dict::CandModel;
use crate::dict::DictCandidate;
use crate::dict::GeneralDict;
use crate::dict::LoadError;
use crate::dict::cands_view;
use crate::dict::general_deinflect;
use crate::dict::general_exact;
use crate::dict::general_partial;
use crate::level::JlptLevel;
use crate::text::character_count;
use crate::text::is_english;
use crate::text::is_kana;
use crate::text::is_japanese;
use crate::text::seq_is_english;
use crate::text::seq_is_japanese;
use crate::text::seq_is_kana;
use crate::text::trim_seq;
use crate::text::trim_str;
use crate::vocab::CommonVocab;
use crate::vocab::DictLookup;
use crate::vocab::JlptEntry;
use crate::vocab::KoreEntry;
use crate::vocab::LookupModel;
use crate::vocab::VocabModel;
use crate::vocab::digits_val;
use crate::vocab::kore_level_spec;
use crate::vocab::lookup_of_vocab;
use crate::vocab::parse_usize;
use crate::vocab::seq_all_digits;

verus! {

/// The entry stored under `key`, taking the latest insertion when a key was
/// inserted more than once: later graded lists override earlier ones.
pub open spec fn find_common(entries: Seq<(Seq<char>, VocabModel)>, key: Seq<char>) -> Option<
    VocabModel,
>
    decreases entries.len(),
{
    if entries.len() == 0 {
        None
    } else if entries.last().0 == key {
        Some(entries.last().1)
    } else {
        find_common(entries.drop_last(), key)
    }
}

/// Whether an entry is left out of the override mapping: single-character
/// kana headwords are too ambiguous to annotate.
pub open spec fn vocab_skip(v: VocabModel) -> bool {
    seq_is_kana(v.word) && trim_seq(v.word).len() == 1
}

/// What adding one entry does to the override mapping: nothing for a
/// single-character kana headword; otherwise the entry is stored under its
/// reading, and also under its written form when the two differ.
pub open spec fn add_common_spec(entries: Seq<(Seq<char>, VocabModel)>, v: VocabModel) -> Seq<
    (Seq<char>, VocabModel),
> {
    if vocab_skip(v) {
        entries
    } else if v.word == v.reading {
        entries.push((v.reading, v))
    } else {
        entries.push((v.word, v)).push((v.reading, v))
    }
}

/// The override mapping after adding the entries in order.
pub open spec fn merge_vocabs(entries: Seq<(Seq<char>, VocabModel)>, vs: Seq<VocabModel>) -> Seq<
    (Seq<char>, VocabModel),
>
    decreases vs.len(),
{
    if vs.len() == 0 {
        entries
    } else {
        add_common_spec(merge_vocabs(entries, vs.drop_last()), vs.last())
    }
}

/// What the tabular reader returns for a text: the header row, and each data
/// row in order, with `None` for a row that could not be read.
pub uninterp spec fn csv_model(s: Seq<char>) -> (Option<Seq<Seq<char>>>, Seq<
    Option<Seq<Seq<char>>>,
>);

/// Relies on csv's `Reader`: parses the text as comma-separated records with
/// the first row as headers; a record that cannot be read is reported as
/// `None`; deterministic in the text.
#[verifier::external_body]
fn parse_csv(text: &str) -> (r: (Option<Vec<String>>, Vec<Option<Vec<String>>>))
    ensures
        r.0.deep_view() == csv_model(text@).0,
        r.1.deep_view() == csv_model(text@).1,
{
    let mut reader = csv::ReaderBuilder::new().from_reader(text.as_bytes());
    let headers = reader.headers().ok().map(|h| h.iter().map(|f| f.to_string()).collect());
    let rows = reader
        .records()
        .map(|rec| rec.ok().map(|r| r.iter().map(|f| f.to_string()).collect()))
        .collect();
    (headers, rows)
}

/// Whether the header cell matches one of the accepted column names.
pub open spec fn header_matches(h: Seq<char>, names: Seq<Seq<char>>) -> bool {
    exists|k: int| 0 <= k < names.len() && h == names[k]
}

/// The first column whose header matches one of the accepted names.
pub open spec fn col_index(headers: Seq<Seq<char>>, names: Seq<Seq<char>>) -> Option<int>
    decreases headers.len(),
{
    if headers.len() == 0 {
        None
    } else if header_matches(headers[0], names) {
        Some(0)
    } else {
        match col_index(headers.drop_first(), names) {
            Some(j) => Some(j + 1),
            None => None,
        }
    }
}

proof fn lemma_col_index_shift(headers: Seq<Seq<char>>, names: Seq<Seq<char>>, i: int)
    requires
        0 <= i <= headers.len(),
        forall|j: int| 0 <= j < i ==> !header_matches(#[trigger] headers[j], names),
    ensures
        col_index(headers, names) == match col_index(headers.skip(i), names) {
            Some(j) => Some(i + j),
            None => None::<int>,
        },
    decreases i,
{
    if i == 0 {
        assert(headers.skip(0) =~= headers);
    } else {
        assert(!header_matches(headers[0], names));
        lemma_col_index_shift(headers.drop_first(), names, i - 1);
        assert(headers.drop_first().skip(i - 1) =~= headers.skip(i));
    }
}

fn matches_any(h: &String, names: &Vec<String>) -> (r: bool)
    ensures
        r == header_matches(h@, names.deep_view()),
{
    for k in 0..names.len()
        invariant
            forall|m: int| 0 <= m < k ==> h@ != names.deep_view()[m],
    {
        proof {
            assert(names.deep_view()[k as int] == names@[k as int]@);
        }
        if *h == names[k] {
            return true;
        }
    }
    false
}

fn find_col(headers: &Vec<String>, names: &Vec<String>) -> (r: Option<usize>)
    ensures
        match r {
            Some(i) => col_index(headers.deep_view(), names.deep_view()) == Some(i as int),
            None => col_index(headers.deep_view(), names.deep_view()) is None,
        },
{
    let ghost hdv = headers.deep_view();
    let ghost ndv = names.deep_view();
    for i in 0..headers.len()
        invariant
            hdv == headers.deep_view(),
            ndv == names.deep_view(),
            forall|j: int| 0 <= j < i ==> !header_matches(#[trigger] hdv[j], ndv),
    {
        proof {
            assert(hdv[i as int] == headers@[i as int]@);
        }
        if matches_any(&headers[i], names) {
            proof {
                lemma_col_index_shift(hdv, ndv, i as int);
                assert(hdv.skip(i as int)[0] == hdv[i as int]);
            }
            return Some(i);
        }
    }
    proof {
        lemma_col_index_shift(hdv, ndv, hdv.len() as int);
        assert(hdv.skip(hdv.len() as int) =~= Seq::<Seq<char>>::empty());
    }
    None
}

fn name1(a: &str) -> (r: Vec<String>)
    ensures
        r.deep_view() == seq![a@],
{
    let mut r: Vec<String> = Vec::new();
    r.push(a.to_owned());
    proof {
        assert(r.deep_view() =~= seq![a@]);
    }
    r
}

fn name2(a: &str, b: &str) -> (r: Vec<String>)
    ensures
        r.deep_view() == seq![a@, b@],
{
    let mut r: Vec<String> = Vec::new();
    r.push(a.to_owned());
    r.push(b.to_owned());
    proof {
        assert(r.deep_view() =~= seq![a@, b@]);
    }
    r
}

fn name3(a: &str, b: &str, c: &str) -> (r: Vec<String>)
    ensures
        r.deep_view() == seq![a@, b@, c@],
{
    let mut r: Vec<String> = Vec::new();
    r.push(a.to_owned());
    r.push(b.to_owned());
    r.push(c.to_owned());
    proof {
        assert(r.deep_view() =~= seq![a@, b@, c@]);
    }
    r
}

/// The cell of the row at an optional column, when the row is long enough.
pub open spec fn field_at(row: Seq<Seq<char>>, idx: Option<int>) -> Option<Seq<char>> {
    match idx {
        Some(i) => if 0 <= i < row.len() {
            Some(row[i])
        } else {
            None
        },
        None => None,
    }
}

/// The entry a JLPT list row contributes: a row parses when the expression,
/// reading, meaning, tags and guid columns all exist and are present, and is
/// skipped otherwise; the level comes from the list the row belongs to.
pub open spec fn jlpt_row_vocab(
    headers: Seq<Seq<char>>,
    row: Option<Seq<Seq<char>>>,
    level: u8,
) -> Option<VocabModel> {
    match row {
        None => None,
        Some(r) => {
            let e = field_at(r, col_index(headers, seq!["expression"@]));
            let rd = field_at(r, col_index(headers, seq!["reading"@]));
            let m = field_at(r, col_index(headers, seq!["meaning"@]));
            let tg = field_at(r, col_index(headers, seq!["tags"@]));
            let g = field_at(r, col_index(headers, seq!["guid"@]));
            if e is Some && rd is Some && m is Some && tg is Some && g is Some {
                Some(
                    VocabModel { word: e->Some_0, reading: rd->Some_0, meaning: m->Some_0, level },
                )
            } else {
                None
            }
        },
    }
}

/// The entry a kore list row contributes: a row parses when the expression,
/// core-index, meaning, reading and jlpt columns all exist and are present
/// and its core index is a number; the level is encoded in the jlpt cell.
pub open spec fn kore_row_vocab(headers: Seq<Seq<char>>, row: Option<Seq<Seq<char>>>) -> Option<
    VocabModel,
> {
    match row {
        None => None,
        Some(r) => {
            let e = field_at(r, col_index(headers, seq!["expression"@, "Vocab-expression"@]));
            let c = field_at(r, col_index(headers, seq!["core_index"@, "Core-index"@]));
            let m = field_at(r, col_index(headers, seq!["meaning"@, "Vocab-meaning"@]));
            let rd = field_at(r, col_index(headers, seq!["reading"@, "Vocab-kana"@]));
            let j = field_at(r, col_index(headers, seq!["_jlpt"@, "jlpt "@, "jlpt"@]));
            if e is Some && c is Some && m is Some && rd is Some && j is Some && (c->Some_0).len()
                > 0 && seq_all_digits(c->Some_0) && digits_val(c->Some_0) <= usize::MAX {
                Some(
                    VocabModel {
                        word: e->Some_0,
                        reading: rd->Some_0,
                        meaning: m->Some_0,
                        level: kore_level_spec(j->Some_0),
                    },
                )
            } else {
                None
            }
        },
    }
}

/// A parsed entry as a one-entry list, a skipped row as none.
pub open spec fn opt_vocab_seq(o: Option<VocabModel>) -> Seq<VocabModel> {
    match o {
        Some(v) => seq![v],
        None => Seq::empty(),
    }
}

/// The entries of a JLPT list's rows, in order.
pub open spec fn jlpt_vocabs_rows(
    headers: Seq<Seq<char>>,
    rows: Seq<Option<Seq<Seq<char>>>>,
    level: u8,
) -> Seq<VocabModel>
    decreases rows.len(),
{
    if rows.len() == 0 {
        Seq::empty()
    } else {
        jlpt_vocabs_rows(headers, rows.drop_last(), level) + opt_vocab_seq(
            jlpt_row_vocab(headers, rows.last(), level),
        )
    }
}

/// The entries a JLPT list text contributes: nothing without a header row.
pub open spec fn jlpt_vocabs(
    m: (Option<Seq<Seq<char>>>, Seq<Option<Seq<Seq<char>>>>),
    level: u8,
) -> Seq<VocabModel> {
    match m.0 {
        None => Seq::empty(),
        Some(h) => jlpt_vocabs_rows(h, m.1, level),
    }
}

/// The entries of the kore list's rows, in order.
pub open spec fn kore_vocabs_rows(
    headers: Seq<Seq<char>>,
    rows: Seq<Option<Seq<Seq<char>>>>,
) -> Seq<VocabModel>
    decreases rows.len(),
{
    if rows.len() == 0 {
        Seq::empty()
    } else {
        kore_vocabs_rows(headers, rows.drop_last()) + opt_vocab_seq(
            kore_row_vocab(headers, rows.last()),
        )
    }
}

/// The entries the kore list text contributes: nothing without a header row.
pub open spec fn kore_vocabs(
    m: (Option<Seq<Seq<char>>>, Seq<Option<Seq<Seq<char>>>>),
) -> Seq<VocabModel> {
    match m.0 {
        None => Seq::empty(),
        Some(h) => kore_vocabs_rows(h, m.1),
    }
}

/// The graded source lists handed to the store: the kore list, then JLPT
/// lists, each with the numeric grade its rows carry. Later lists override
/// earlier ones where they share a word.
pub struct GradedSources {
    /// The kore frequency list, as tabular text.
    pub kore: String,
    /// The JLPT lists, each a numeric grade with its tabular text.
    pub jlpt: Vec<(u8, String)>,
}

/// The models of the JLPT list files, in order.
pub open spec fn jlpt_files_view(files: Seq<(u8, String)>) -> Seq<(u8, Seq<char>)> {
    files.map_values(|f: (u8, String)| (f.0, f.1@))
}

/// The entries of the JLPT list files, in order.
pub open spec fn jlpt_files_vocabs(files: Seq<(u8, Seq<char>)>) -> Seq<VocabModel>
    decreases files.len(),
{
    if files.len() == 0 {
        Seq::empty()
    } else {
        jlpt_files_vocabs(files.drop_last()) + jlpt_vocabs(
            csv_model(files.last().1),
            files.last().0,
        )
    }
}

/// Every entry the graded sources contribute, in merge order: the kore list
/// first, then each JLPT list.
pub open spec fn sources_vocabs(kore: Seq<char>, files: Seq<(u8, Seq<char>)>) -> Seq<VocabModel> {
    kore_vocabs(csv_model(kore)) + jlpt_files_vocabs(files)
}

proof fn lemma_merge_vocabs_concat(
    entries: Seq<(Seq<char>, VocabModel)>,
    a: Seq<VocabModel>,
    b: Seq<VocabModel>,
)
    ensures
        merge_vocabs(entries, a + b) == merge_vocabs(merge_vocabs(entries, a), b),
    decreases b.len(),
{
    if b.len() == 0 {
        assert(a + b =~= a);
    } else {
        assert((a + b).drop_last() =~= a + b.drop_last());
        assert((a + b).last() == b.last());
        lemma_merge_vocabs_concat(entries, a, b.drop_last());
    }
}

/// The first of the keys that the override mapping contains, with its entry.
pub open spec fn first_key_in(common: Seq<(Seq<char>, VocabModel)>, keys: Seq<Seq<char>>) -> Option<
    VocabModel,
>
    decreases keys.len(),
{
    if keys.len() == 0 {
        None
    } else {
        match find_common(common, keys[0]) {
            Some(v) => Some(v),
            None => first_key_in(common, keys.drop_first()),
        }
    }
}

/// The override entry reached through the deinflected candidates: candidates
/// in order, each candidate's written forms before its readings, the first
/// form present in the override mapping wins.
pub open spec fn scan_override(common: Seq<(Seq<char>, VocabModel)>, cands: Seq<CandModel>) -> Option<
    VocabModel,
>
    decreases cands.len(),
{
    if cands.len() == 0 {
        None
    } else {
        match first_key_in(common, cands[0].kanji) {
            Some(v) => Some(v),
            None => match first_key_in(common, cands[0].kana) {
                Some(v) => Some(v),
                None => scan_override(common, cands.drop_first()),
            },
        }
    }
}

/// The lookup built from the first dictionary candidate: its first reading
/// and the first gloss of its first sense; a candidate missing any of them
/// is not actionable, and dictionary-sourced results carry no grade.
pub open spec fn first_candidate_lookup(cands: Seq<CandModel>, t: Seq<char>) -> Option<
    LookupModel,
> {
    if cands.len() == 0 {
        None
    } else if cands[0].kana.len() == 0 || cands[0].senses.len() == 0 || cands[0].senses[0].len()
        == 0 {
        None
    } else {
        Some(
            LookupModel {
                is_kana: seq_is_kana(t),
                kana: cands[0].kana[0],
                meaning: cands[0].senses[0][0],
                jlpt: JlptLevel::Ungraded,
            },
        )
    }
}

/// The candidates the approximate path considers: deinflected matches for a
/// wholly Japanese word; a word mixing in other scripts is not handed to the
/// deinflector (which cannot take it), so only its exact matches count, and
/// the prefix fallback serves it like any other word without candidates.
pub open spec fn approximate_candidates(dict: GeneralDict, t: Seq<char>) -> Seq<CandModel> {
    if seq_is_japanese(t) {
        general_deinflect(dict, t)
    } else {
        general_exact(dict, t)
    }
}

/// What `DictDb::lookup` returns for a word against a store with the given
/// override mapping, dictionary and mode: nothing for non-Japanese words; an
/// override entry when the trimmed word is a key of the mapping; otherwise
/// the dictionary's answer — in exact mode an exact match only, in
/// approximate mode a deinflected match (preferring any override entry the
/// deinflected forms reach; exact matches only for a word the deinflector
/// cannot take) with a prefix match as last resort.
pub open spec fn resolve_spec(
    common: Seq<(Seq<char>, VocabModel)>,
    dict: GeneralDict,
    approximate: bool,
    word: Seq<char>,
) -> Option<LookupModel> {
    let t = trim_seq(word);
    if seq_is_english(t) {
        None
    } else if find_common(common, t) is Some {
        Some(lookup_of_vocab(find_common(common, t)->Some_0, seq_is_kana(t)))
    } else if !approximate {
        first_candidate_lookup(general_exact(dict, t), t)
    } else {
        let dei = approximate_candidates(dict, t);
        if dei.len() > 0 {
            match scan_override(common, dei) {
                Some(v) => Some(lookup_of_vocab(v, seq_is_kana(t))),
                None => first_candidate_lookup(dei, t),
            }
        } else {
            first_candidate_lookup(general_partial(dict, t), t)
        }
    }
}

/// The model of an optional lookup.
pub open spec fn lookup_view(r: Option<DictLookup>) -> Option<LookupModel> {
    match r {
        Some(l) => Some(l@),
        None => None,
    }
}

/// The lexical store: the override mapping built from graded lists, a handle
/// to the general dictionary, and the language settings. Read-only after
/// construction.
pub struct DictDb {
    common: Vec<(String, CommonVocab)>,
    dict: GeneralDict,
    config: LanguageConfig,
}

impl DictDb {
    /// The override mapping: key/entry pairs in insertion order, of which
    /// the latest insertion of a key governs.
    pub closed spec fn common_view(self) -> Seq<(Seq<char>, VocabModel)> {
        self.common@.map_values(|e: (String, CommonVocab)| (e.0@, e.1@))
    }

    /// The general dictionary handle.
    pub closed spec fn general_dict(self) -> GeneralDict {
        self.dict
    }

    /// The language settings the store was built with.
    pub closed spec fn language(self) -> LanguageConfig {
        self.config
    }

    /// Whether lookups use deinflection and prefix fallback.
    pub open spec fn approximate(self) -> bool {
        self.language().approximate
    }

    /// Build the store: load the general dictionary (fatal when it cannot
    /// be loaded), then merge the graded source lists.
    pub fn new(config: &Config, sources: &GradedSources) -> (r: Result<DictDb, LoadError>)
        ensures
            match r {
                Ok(db) => {
                    &&& db.general_dict() is Jmdict
                    &&& db.language() == config.language
                    &&& db.common_view() == merge_vocabs(
                        Seq::empty(),
                        sources_vocabs(sources.kore@, jlpt_files_view(sources.jlpt@)),
                    )
                },
                Err(e) => e == LoadError::Dictionary,
            },
    {
        let dict = match GeneralDict::load() {
            Ok(d) => d,
            Err(e) => {
                return Err(e);
            },
        };
        Ok(Self::with_dict(dict, config, sources))
    }

    /// Build the store around an already-obtained dictionary handle by
    /// merging the graded source lists: the kore list first, then each JLPT
    /// list in the order given, later lists overriding earlier ones.
    pub fn with_dict(dict: GeneralDict, config: &Config, sources: &GradedSources) -> (r: DictDb)
        ensures
            r.general_dict() == dict,
            r.language() == config.language,
            r.common_view() == merge_vocabs(
                Seq::empty(),
                sources_vocabs(sources.kore@, jlpt_files_view(sources.jlpt@)),
            ),
    {
        let mut db = DictDb { common: Vec::new(), dict, config: config.language };
        proof {
            assert(db.common_view() =~= Seq::<(Seq<char>, VocabModel)>::empty());
        }
        db.read_kore_csv(sources.kore.as_str());
        let ghost files = jlpt_files_view(sources.jlpt@);
        let ghost kore_vs = kore_vocabs(csv_model(sources.kore@));
        proof {
            assert(jlpt_files_vocabs(files.take(0)) =~= Seq::<VocabModel>::empty());
            assert(kore_vs + jlpt_files_vocabs(files.take(0)) =~= kore_vs);
        }
        for i in 0..sources.jlpt.len()
            invariant
                files == jlpt_files_view(sources.jlpt@),
                kore_vs == kore_vocabs(csv_model(sources.kore@)),
                db.general_dict() == dict,
                db.language() == config.language,
                db.common_view() == merge_vocabs(
                    Seq::empty(),
                    kore_vs + jlpt_files_vocabs(files.take(i as int)),
                ),
        {
            let level = sources.jlpt[i].0;
            db.read_jlpt_csv(sources.jlpt[i].1.as_str(), level);
            proof {
                let pre = kore_vs + jlpt_files_vocabs(files.take(i as int));
                let added = jlpt_vocabs(
                    csv_model(sources.jlpt@[i as int].1@),
                    sources.jlpt@[i as int].0,
                );
                assert(files[i as int] == (sources.jlpt@[i as int].0, sources.jlpt@[i as int].1@));
                assert(files.take(i + 1).drop_last() =~= files.take(i as int));
                assert(files.take(i + 1).last() == files[i as int]);
                assert(jlpt_files_vocabs(files.take(i + 1)) == jlpt_files_vocabs(
                    files.take(i as int),
                ) + added);
                lemma_merge_vocabs_concat(Seq::empty(), pre, added);
                assert(merge_vocabs(Seq::empty(), pre + added) == merge_vocabs(
                    merge_vocabs(Seq::empty(), pre),
                    added,
                ));
                assert(pre + added =~= kore_vs + jlpt_files_vocabs(files.take(i + 1)));
            }
        }
        proof {
            assert(files.take(files.len() as int) =~= files);
        }
        db
    }

    /// Add a curated word under its keys; single-character kana headwords
    /// are not added.
    fn add_common(&mut self, common: CommonVocab) -> (r: bool)
        ensures
            final(self).common_view() == add_common_spec(old(self).common_view(), common@),
            final(self).dict == old(self).dict,
            final(self).config == old(self).config,
            r == !vocab_skip(common@),
    {
        if is_kana(common.word.as_str()) && character_count(common.word.as_str()) == 1 {
            return false;
        }
        let ghost pre = self.common@;
        if common.word != common.reading {
            let copy = CommonVocab {
                word: common.word.clone(),
                reading: common.reading.clone(),
                meaning: common.meaning.clone(),
                level: common.level,
            };
            let key = common.word.clone();
            self.common.push((key, copy));
            proof {
                assert(self.common_view() =~= old(self).common_view().push(
                    (common.word@, common@),
                ));
            }
        }
        let ghost mid = self.common_view();
        let key = common.reading.clone();
        let ghost cv = common@;
        self.common.push((key, common));
        proof {
            assert(self.common_view() =~= mid.push((cv.reading, cv)));
        }
        true
    }

    /// Read a JLPT vocabulary list: every row that parses is added with the
    /// list's numeric grade, rows that do not parse are skipped.
    fn read_jlpt_csv(&mut self, text: &str, level: u8)
        ensures
            final(self).common_view() == merge_vocabs(
                old(self).common_view(),
                jlpt_vocabs(csv_model(text@), level),
            ),
            final(self).dict == old(self).dict,
            final(self).config == old(self).config,
    {
        let (headers, rows) = parse_csv(text);
        let h = match headers {
            Some(h) => h,
            None => {
                return ;
            },
        };
        let ghost hdv = h.deep_view();
        let ghost rdv = rows.deep_view();
        let ie = find_col(&h, &name1("expression"));
        let ird = find_col(&h, &name1("reading"));
        let im = find_col(&h, &name1("meaning"));
        let itg = find_col(&h, &name1("tags"));
        let ig = find_col(&h, &name1("guid"));
        proof {
            assert(jlpt_vocabs_rows(hdv, rdv.take(0), level) =~= Seq::<VocabModel>::empty());
        }
        for i in 0..rows.len()
            invariant
                hdv == h.deep_view(),
                rdv == rows.deep_view(),
                rdv == csv_model(text@).1,
                csv_model(text@).0 == Some(hdv),
                match ie {
                    Some(x) => col_index(hdv, seq!["expression"@]) == Some(x as int),
                    None => col_index(hdv, seq!["expression"@]) is None,
                },
                match ird {
                    Some(x) => col_index(hdv, seq!["reading"@]) == Some(x as int),
                    None => col_index(hdv, seq!["reading"@]) is None,
                },
                match im {
                    Some(x) => col_index(hdv, seq!["meaning"@]) == Some(x as int),
                    None => col_index(hdv, seq!["meaning"@]) is None,
                },
                match itg {
                    Some(x) => col_index(hdv, seq!["tags"@]) == Some(x as int),
                    None => col_index(hdv, seq!["tags"@]) is None,
                },
                match ig {
                    Some(x) => col_index(hdv, seq!["guid"@]) == Some(x as int),
                    None => col_index(hdv, seq!["guid"@]) is None,
                },
                self.common_view() == merge_vocabs(
                    old(self).common_view(),
                    jlpt_vocabs_rows(hdv, rdv.take(i as int), level),
                ),
                self.dict == old(self).dict,
                self.config == old(self).config,
        {
            let ghost done = jlpt_vocabs_rows(hdv, rdv.take(i as int), level);
            proof {
                assert(rdv.take(i + 1).drop_last() =~= rdv.take(i as int));
                assert(rdv.take(i + 1).last() == rdv[i as int]);
                assert(rdv[i as int] == rows@[i as int].deep_view());
            }
            match &rows[i] {
                None => {
                    proof {
                        assert(jlpt_row_vocab(hdv, rdv[i as int], level) is None);
                        assert(done + opt_vocab_seq(None) =~= done);
                    }
                },
                Some(row) => {
                    let ghost rowdv = row.deep_view();
                    proof {
                        assert(rdv[i as int] == Some(rowdv));
                    }
                    if let (Some(ie_v), Some(ird_v), Some(im_v), Some(itg_v), Some(ig_v)) = (
                        ie,
                        ird,
                        im,
                        itg,
                        ig,
                    ) {
                    if ie_v < row.len() && ird_v < row.len() && im_v < row.len() && itg_v
                        < row.len() && ig_v < row.len() {
                        proof {
                            assert(rowdv.len() == row@.len());
                            assert(rowdv[ie_v as int] == row@[ie_v as int]@);
                            assert(rowdv[ird_v as int] == row@[ird_v as int]@);
                            assert(rowdv[im_v as int] == row@[im_v as int]@);
                        }
                        let entry = JlptEntry {
                            expression: row[ie_v].clone(),
                            reading: row[ird_v].clone(),
                            meaning: row[im_v].clone(),
                            tags: row[itg_v].clone(),
                            guid: row[ig_v].clone(),
                            level,
                        };
                        let cv = entry.into_common();
                        let ghost v = jlpt_row_vocab(hdv, rdv[i as int], level)->Some_0;
                        proof {
                            assert(jlpt_row_vocab(hdv, rdv[i as int], level) == Some(cv@));
                        }
                        self.add_common(cv);
                        proof {
                            assert(done + opt_vocab_seq(Some(v)) =~= done.push(v));
                            assert(jlpt_vocabs_rows(hdv, rdv.take(i + 1), level) == done.push(v));
                            assert(done.push(v).drop_last() =~= done);
                            assert(done.push(v).last() == v);
                        }
                    } else {
                        proof {
                            assert(jlpt_row_vocab(hdv, rdv[i as int], level) is None);
                            assert(done + opt_vocab_seq(None) =~= done);
                        }
                    }
                    } else {
                        proof {
                            assert(jlpt_row_vocab(hdv, rdv[i as int], level) is None);
                            assert(done + opt_vocab_seq(None) =~= done);
                        }
                    }
                },
            }
        }
        proof {
            assert(rdv.take(rdv.len() as int) =~= rdv);
        }
    }

    /// Read the kore vocabulary list: every row that parses is added with
    /// the grade its jlpt cell encodes, rows that do not parse are skipped.
    fn read_kore_csv(&mut self, text: &str)
        ensures
            final(self).common_view() == merge_vocabs(
                old(self).common_view(),
                kore_vocabs(csv_model(text@)),
            ),
            final(self).dict == old(self).dict,
            final(self).config == old(self).config,
    {
        let (headers, rows) = parse_csv(text);
        let h = match headers {
            Some(h) => h,
            None => {
                return ;
            },
        };
        let ghost hdv = h.deep_view();
        let ghost rdv = rows.deep_view();
        let ie = find_col(&h, &name2("expression", "Vocab-expression"));
        let ic = find_col(&h, &name2("core_index", "Core-index"));
        let im = find_col(&h, &name2("meaning", "Vocab-meaning"));
        let ird = find_col(&h, &name2("reading", "Vocab-kana"));
        let ij = find_col(&h, &name3("_jlpt", "jlpt ", "jlpt"));
        proof {
            assert(kore_vocabs_rows(hdv, rdv.take(0)) =~= Seq::<VocabModel>::empty());
        }
        for i in 0..rows.len()
            invariant
                hdv == h.deep_view(),
                rdv == rows.deep_view(),
                rdv == csv_model(text@).1,
                csv_model(text@).0 == Some(hdv),
                match ie {
                    Some(x) => col_index(hdv, seq!["expression"@, "Vocab-expression"@]) == Some(
                        x as int,
                    ),
                    None => col_index(hdv, seq!["expression"@, "Vocab-expression"@]) is None,
                },
                match ic {
                    Some(x) => col_index(hdv, seq!["core_index"@, "Core-index"@]) == Some(
                        x as int,
                    ),
                    None => col_index(hdv, seq!["core_index"@, "Core-index"@]) is None,
                },
                match im {
                    Some(x) => col_index(hdv, seq!["meaning"@, "Vocab-meaning"@]) == Some(
                        x as int,
                    ),
                    None => col_index(hdv, seq!["meaning"@, "Vocab-meaning"@]) is None,
                },
                match ird {
                    Some(x) => col_index(hdv, seq!["reading"@, "Vocab-kana"@]) == Some(x as int),
                    None => col_index(hdv, seq!["reading"@, "Vocab-kana"@]) is None,
                },
                match ij {
                    Some(x) => col_index(hdv, seq!["_jlpt"@, "jlpt "@, "jlpt"@]) == Some(
                        x as int,
                    ),
                    None => col_index(hdv, seq!["_jlpt"@, "jlpt "@, "jlpt"@]) is None,
                },
                self.common_view() == merge_vocabs(
                    old(self).common_view(),
                    kore_vocabs_rows(hdv, rdv.take(i as int)),
                ),
                self.dict == old(self).dict,
                self.config == old(self).config,
        {
            let ghost done = kore_vocabs_rows(hdv, rdv.take(i as int));
            proof {
                assert(rdv.take(i + 1).drop_last() =~= rdv.take(i as int));
                assert(rdv.take(i + 1).last() == rdv[i as int]);
                assert(rdv[i as int] == rows@[i as int].deep_view());
            }
            match &rows[i] {
                None => {
                    proof {
                        assert(kore_row_vocab(hdv, rdv[i as int]) is None);
                        assert(done + opt_vocab_seq(None) =~= done);
                    }
                },
                Some(row) => {
                    let ghost rowdv = row.deep_view();
                    proof {
                        assert(rdv[i as int] == Some(rowdv));
                    }
                    if let (Some(ie_v), Some(ic_v), Some(im_v), Some(ird_v), Some(ij_v)) = (
                        ie,
                        ic,
                        im,
                        ird,
                        ij,
                    ) {
                        if ie_v < row.len() && ic_v < row.len() && im_v < row.len() && ird_v
                            < row.len() && ij_v < row.len() {
                            proof {
                                assert(rowdv.len() == row@.len());
                                assert(rowdv[ie_v as int] == row@[ie_v as int]@);
                                assert(rowdv[ic_v as int] == row@[ic_v as int]@);
                                assert(rowdv[im_v as int] == row@[im_v as int]@);
                                assert(rowdv[ird_v as int] == row@[ird_v as int]@);
                                assert(rowdv[ij_v as int] == row@[ij_v as int]@);
                            }
                            match parse_usize(row[ic_v].as_str()) {
                                Some(core_index) => {
                                    let entry = KoreEntry {
                                        expression: row[ie_v].clone(),
                                        core_index,
                                        meaning: row[im_v].clone(),
                                        reading: row[ird_v].clone(),
                                        _jlpt: row[ij_v].clone(),
                                    };
                                    let cv = entry.into_common();
                                    let ghost v = kore_row_vocab(hdv, rdv[i as int])->Some_0;
                                    proof {
                                        assert(kore_row_vocab(hdv, rdv[i as int]) == Some(cv@));
                                    }
                                    self.add_common(cv);
                                    proof {
                                        assert(done + opt_vocab_seq(Some(v)) =~= done.push(v));
                                        assert(kore_vocabs_rows(hdv, rdv.take(i + 1)) == done.push(
                                            v,
                                        ));
                                        assert(done.push(v).drop_last() =~= done);
                                        assert(done.push(v).last() == v);
                                    }
                                },
                                None => {
                                    proof {
                                        assert(kore_row_vocab(hdv, rdv[i as int]) is None);
                                        assert(done + opt_vocab_seq(None) =~= done);
                                    }
                                },
                            }
                        } else {
                            proof {
                                assert(kore_row_vocab(hdv, rdv[i as int]) is None);
                                assert(done + opt_vocab_seq(None) =~= done);
                            }
                        }
                    } else {
                        proof {
                            assert(kore_row_vocab(hdv, rdv[i as int]) is None);
                            assert(done + opt_vocab_seq(None) =~= done);
                        }
                    }
                },
            }
        }
        proof {
            assert(rdv.take(rdv.len() as int) =~= rdv);
        }
    }

    /// The latest entry stored under the given key, if any.
    fn get_common(&self, word: &str) -> (r: Option<&CommonVocab>)
        ensures
            match r {
                Some(c) => find_common(self.common_view(), word@) == Some(c@),
                None => find_common(self.common_view(), word@) is None,
            },
    {
        let w: String = word.to_owned();
        let ghost cm = self.common_view();
        let mut i = self.common.len();
        proof {
            assert(cm.take(cm.len() as int) =~= cm);
        }
        while i > 0
            invariant
                i <= self.common@.len(),
                cm == self.common_view(),
                w@ == word@,
                find_common(cm, word@) == find_common(cm.take(i as int), word@),
            decreases i,
        {
            let j = i - 1;
            proof {
                assert(cm.take(j + 1).drop_last() =~= cm.take(j as int));
                assert(cm.take(j + 1).last() == cm[j as int]);
                assert(cm[j as int] == (self.common@[j as int].0@, self.common@[j as int].1@));
            }
            if self.common[j].0 == w {
                return Some(&self.common[j].1);
            }
            i = j;
        }
        proof {
            assert(cm.take(0) =~= Seq::<(Seq<char>, VocabModel)>::empty());
        }
        None
    }

    /// The lookup built from the first candidate of a dictionary answer.
    fn first_candidate(cands: &Vec<DictCandidate>, kana_flag: bool, Ghost(t): Ghost<Seq<char>>) -> (r:
        Option<DictLookup>)
        requires
            kana_flag == seq_is_kana(t),
        ensures
            lookup_view(r) == first_candidate_lookup(cands_view(cands@), t),
    {
        let ghost cv = cands_view(cands@);
        if cands.len() == 0 {
            return None;
        }
        let first = &cands[0];
        proof {
            assert(cv[0] == cands@[0]@);
            assert(first.kana.deep_view().len() == first.kana@.len());
            assert(first.senses.deep_view().len() == first.senses@.len());
        }
        if first.kana.len() == 0 || first.senses.len() == 0 {
            return None;
        }
        proof {
            assert(first.senses.deep_view()[0] == first.senses@[0].deep_view());
            assert(first.senses@[0].deep_view().len() == first.senses@[0]@.len());
        }
        if first.senses[0].len() == 0 {
            return None;
        }
        proof {
            assert(first.kana.deep_view()[0] == first.kana@[0]@);
            assert(first.senses@[0].deep_view()[0] == first.senses@[0]@[0]@);
        }
        Some(
            DictLookup {
                is_kana: kana_flag,
                kana: first.kana[0].clone(),
                meaning: first.senses[0][0].clone(),
                jlpt: JlptLevel::Ungraded,
            },
        )
    }

    /// Resolve one word: nothing for non-Japanese words; the override
    /// mapping's entry when the trimmed word is one of its keys; otherwise
    /// the general dictionary's answer, preferring any override entry that a
    /// deinflected form reaches. Deinflection is attempted only on wholly
    /// Japanese words; a word mixing in other scripts takes its exact
    /// matches, then the prefix fallback.
    pub fn lookup(&self, word: &str) -> (r: Option<DictLookup>)
        ensures
            lookup_view(r) == resolve_spec(
                self.common_view(),
                self.general_dict(),
                self.approximate(),
                word@,
            ),
    {
        let ghost cm = self.common_view();
        let ghost gd = self.general_dict();
        let ghost t = trim_seq(word@);
        let wt = trim_str(word);
        if is_english(wt) {
            return None;
        }
        let kana_flag = is_kana(wt);
        match self.get_common(wt) {
            Some(c) => {
                return Some(DictLookup::of_common(c, kana_flag));
            },
            None => {},
        }
        if !self.config.approximate {
            let results = self.dict.lookup_exact(wt);
            return Self::first_candidate(&results, kana_flag, Ghost(t));
        }
        let dei = if is_japanese(wt) {
            self.dict.lookup_deinflect(wt)
        } else {
            self.dict.lookup_exact(wt)
        };
        if dei.len() > 0 {
            let ghost dv = cands_view(dei@);
            proof {
                assert(dv.skip(0) =~= dv);
            }
            for i in 0..dei.len()
                invariant
                    dv == cands_view(dei@),
                    dv == approximate_candidates(gd, t),
                    dv.len() == dei@.len(),
                    dv.len() > 0,
                    cm == self.common_view(),
                    gd == self.general_dict(),
                    self.approximate(),
                    t == trim_seq(word@),
                    wt@ == t,
                    kana_flag == seq_is_kana(t),
                    !seq_is_english(t),
                    find_common(cm, t) is None,
                    scan_override(cm, dv) == scan_override(cm, dv.skip(i as int)),
            {
                let cand = &dei[i];
                proof {
                    assert(dv.skip(i as int)[0] == dv[i as int]);
                    assert(dv[i as int] == dei@[i as int]@);
                }
                let ghost kj = dv[i as int].kanji;
                proof {
                    assert(kj.skip(0) =~= kj);
                }
                for j in 0..cand.kanji.len()
                    invariant
                        dv == cands_view(dei@),
                        dv == approximate_candidates(gd, t),
                        dv.len() > 0,
                        i < dei@.len(),
                        cand == &dei@[i as int],
                        kj == dv[i as int].kanji,
                        kj == cand.kanji.deep_view(),
                        cm == self.common_view(),
                        gd == self.general_dict(),
                        self.approximate(),
                        t == trim_seq(word@),
                        kana_flag == seq_is_kana(t),
                        !seq_is_english(t),
                        find_common(cm, t) is None,
                        scan_override(cm, dv) == scan_override(cm, dv.skip(i as int)),
                        first_key_in(cm, kj) == first_key_in(cm, kj.skip(j as int)),
                {
                    proof {
                        assert(kj.skip(j as int)[0] == kj[j as int]);
                        assert(kj[j as int] == cand.kanji@[j as int]@);
                        assert(kj.skip(j as int).drop_first() =~= kj.skip(j + 1));
                    }
                    match self.get_common(cand.kanji[j].as_str()) {
                        Some(c) => {
                            proof {
                                assert(first_key_in(cm, kj) == Some(c@));
                                assert(scan_override(cm, dv.skip(i as int)) == Some(c@));
                            }
                            return Some(DictLookup::of_common(c, kana_flag));
                        },
                        None => {},
                    }
                }
                proof {
                    assert(kj.skip(kj.len() as int) =~= Seq::<Seq<char>>::empty());
                    assert(first_key_in(cm, kj) is None);
                }
                let ghost ka = dv[i as int].kana;
                proof {
                    assert(ka.skip(0) =~= ka);
                }
                for j in 0..cand.kana.len()
                    invariant
                        dv == cands_view(dei@),
                        dv == approximate_candidates(gd, t),
                        dv.len() > 0,
                        i < dei@.len(),
                        cand == &dei@[i as int],
                        ka == dv[i as int].kana,
                        ka == cand.kana.deep_view(),
                        first_key_in(cm, dv[i as int].kanji) is None,
                        cm == self.common_view(),
                        gd == self.general_dict(),
                        self.approximate(),
                        t == trim_seq(word@),
                        kana_flag == seq_is_kana(t),
                        !seq_is_english(t),
                        find_common(cm, t) is None,
                        scan_override(cm, dv) == scan_override(cm, dv.skip(i as int)),
                        first_key_in(cm, ka) == first_key_in(cm, ka.skip(j as int)),
                {
                    proof {
                        assert(ka.skip(j as int)[0] == ka[j as int]);
                        assert(ka[j as int] == cand.kana@[j as int]@);
                        assert(ka.skip(j as int).drop_first() =~= ka.skip(j + 1));
                    }
                    match self.get_common(cand.kana[j].as_str()) {
                        Some(c) => {
                            proof {
                                assert(first_key_in(cm, ka) == Some(c@));
                                assert(scan_override(cm, dv.skip(i as int)) == Some(c@));
                            }
                            return Some(DictLookup::of_common(c, kana_flag));
                        },
                        None => {},
                    }
                }
                proof {
                    assert(ka.skip(ka.len() as int) =~= Seq::<Seq<char>>::empty());
                    assert(first_key_in(cm, ka) is None);
                    assert(dv.skip(i as int).drop_first() =~= dv.skip(i + 1));
                }
            }
            proof {
                assert(dv.skip(dv.len() as int) =~= Seq::<CandModel>::empty());
                assert(scan_override(cm, dv) is None);
            }
            return Self::first_candidate(&dei, kana_flag, Ghost(t));
        }
        let results = self.dict.lookup_partial(wt);
        Self::first_candidate(&results, kana_flag, Ghost(t))
    }
}

} // verus!
