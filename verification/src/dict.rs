//! The general dictionary behind the lexical store.
//!
//! The dictionary is an outside, read-only index loaded once per run. Its
//! lookups are modeled by uninterpreted functions of the dictionary value and
//! the queried term; everything the resolver then does with the returned
//! candidates is verified.

use vstd::prelude::*;

verus! {

#[verifier::external_type_specification]
#[verifier::external_body]
pub struct ExJmdict(jmdict_fast::Dict);

#[verifier::external_type_specification]
#[verifier::external_body]
pub struct ExJmdictError(jmdict_fast::JmdictError);

/// One dictionary candidate, reduced to the fields the resolver reads: the
/// written forms, the readings, and the gloss texts of each sense.
#[derive(Clone, Debug)]
pub struct DictCandidate {
    /// Kanji (written form) texts, in the dictionary's order.
    pub kanji: Vec<String>,
    /// Kana (reading) texts, in the dictionary's order.
    pub kana: Vec<String>,
    /// For each sense, its gloss texts, in the dictionary's order.
    pub senses: Vec<Vec<String>>,
}

/// Mathematical model of a dictionary candidate.
pub struct CandModel {
    pub kanji: Seq<Seq<char>>,
    pub kana: Seq<Seq<char>>,
    pub senses: Seq<Seq<Seq<char>>>,
}

impl View for DictCandidate {
    type V = CandModel;

    open spec fn view(&self) -> CandModel {
        CandModel {
            kanji: self.kanji.deep_view(),
            kana: self.kana.deep_view(),
            senses: self.senses.deep_view(),
        }
    }
}

/// The models of a list of candidates, in order.
pub open spec fn cands_view(cands: Seq<DictCandidate>) -> Seq<CandModel> {
    cands.map_values(|c: DictCandidate| c@)
}

/// What the dictionary returns for an exact match of `w`.
pub uninterp spec fn jm_exact(d: jmdict_fast::Dict, w: Seq<char>) -> Seq<CandModel>;

/// What the dictionary returns for an exact match of `w` with deinflection
/// fallback: `w` is reduced to candidate dictionary base forms when no exact
/// match exists.
pub uninterp spec fn jm_deinflect(d: jmdict_fast::Dict, w: Seq<char>) -> Seq<CandModel>;

/// What the dictionary returns for a prefix match of `w`.
pub uninterp spec fn jm_partial(d: jmdict_fast::Dict, w: Seq<char>) -> Seq<CandModel>;

/// Relies on `jmdict_fast::Dict::lookup_exact`: matches the term exactly
/// across the kana, kanji and romaji indexes; deterministic in the dictionary
/// contents and the term.
#[verifier::external_body]
fn jm_lookup_exact(dict: &jmdict_fast::Dict, term: &str) -> (r: Vec<DictCandidate>)
    ensures
        cands_view(r@) == jm_exact(*dict, term@),
{
    dict.lookup_exact(term)
        .into_iter()
        .map(|lr| DictCandidate {
            kanji: lr.entry.kanji.into_iter().map(|k| k.text).collect(),
            kana: lr.entry.kana.into_iter().map(|k| k.text).collect(),
            senses: lr.entry.sense
                .into_iter()
                .map(|s| s.gloss.into_iter().map(|g| g.text).collect())
                .collect(),
        })
        .collect()
}

/// Relies on `jmdict_fast::Dict::lookup_exact_with_deinflection`: exact
/// match first, then deinflected base forms; deterministic in the dictionary
/// contents and the term. The term must be wholly Japanese text: the
/// deinflector cuts the term at the byte length of its rule suffixes, which
/// are Japanese characters (three bytes each), so on a term of Japanese
/// characters only every cut falls on a character boundary, while a term
/// mixing in narrower characters can be cut mid-character and abort.
#[verifier::external_body]
fn jm_lookup_deinflect(dict: &jmdict_fast::Dict, term: &str) -> (r: Vec<DictCandidate>)
    requires
        crate::text::seq_is_japanese(term@),
    ensures
        cands_view(r@) == jm_deinflect(*dict, term@),
{
    dict.lookup_exact_with_deinflection(term)
        .into_iter()
        .map(|lr| DictCandidate {
            kanji: lr.entry.kanji.into_iter().map(|k| k.text).collect(),
            kana: lr.entry.kana.into_iter().map(|k| k.text).collect(),
            senses: lr.entry.sense
                .into_iter()
                .map(|s| s.gloss.into_iter().map(|g| g.text).collect())
                .collect(),
        })
        .collect()
}

/// Relies on `jmdict_fast::Dict::lookup_partial`: prefix search with a
/// deterministic ranking; deterministic in the dictionary contents and the
/// term.
#[verifier::external_body]
fn jm_lookup_partial(dict: &jmdict_fast::Dict, term: &str) -> (r: Vec<DictCandidate>)
    ensures
        cands_view(r@) == jm_partial(*dict, term@),
{
    dict.lookup_partial(term)
        .into_iter()
        .map(|lr| DictCandidate {
            kanji: lr.entry.kanji.into_iter().map(|k| k.text).collect(),
            kana: lr.entry.kana.into_iter().map(|k| k.text).collect(),
            senses: lr.entry.sense
                .into_iter()
                .map(|s| s.gloss.into_iter().map(|g| g.text).collect())
                .collect(),
        })
        .collect()
}

/// Relies on `jmdict_fast::Dict::load_default`: loads the dictionary data
/// from the `JMDICT_DATA` path or the `dist` directory; fails when the data
/// cannot be read. The loader validates the header and index formats;
/// lookups assume the entry blob is internally consistent with them.
#[verifier::external_body]
fn jm_load_default() -> Result<jmdict_fast::Dict, jmdict_fast::JmdictError> {
    jmdict_fast::Dict::load_default()
}

/// The store cannot be constructed: the general dictionary failed to load.
#[derive(Clone, Copy, Debug, PartialEq, Eq, Structural)]
pub enum LoadError {
    /// The general dictionary data could not be read.
    Dictionary,
}

impl LoadError {
    /// A fatal message for the caller to report.
    pub fn message(&self) -> (r: &'static str)
        ensures
            r@ == "unable to load the general dictionary"@,
    {
        "unable to load the general dictionary"
    }
}

/// A handle to the general dictionary: either loaded dictionary data, or an
/// empty dictionary with no entries (for runs that only use graded lists).
pub enum GeneralDict {
    /// A loaded dictionary.
    Jmdict(jmdict_fast::Dict),
    /// A dictionary with no entries: every lookup returns no candidates.
    Empty,
}

/// What `GeneralDict::lookup_exact` returns.
pub open spec fn general_exact(d: GeneralDict, w: Seq<char>) -> Seq<CandModel> {
    match d {
        GeneralDict::Jmdict(j) => jm_exact(j, w),
        GeneralDict::Empty => Seq::empty(),
    }
}

/// What `GeneralDict::lookup_deinflect` returns.
pub open spec fn general_deinflect(d: GeneralDict, w: Seq<char>) -> Seq<CandModel> {
    match d {
        GeneralDict::Jmdict(j) => jm_deinflect(j, w),
        GeneralDict::Empty => Seq::empty(),
    }
}

/// What `GeneralDict::lookup_partial` returns.
pub open spec fn general_partial(d: GeneralDict, w: Seq<char>) -> Seq<CandModel> {
    match d {
        GeneralDict::Jmdict(j) => jm_partial(j, w),
        GeneralDict::Empty => Seq::empty(),
    }
}

impl GeneralDict {
    /// Load the default dictionary data; fatal when it cannot be read.
    pub fn load() -> (r: Result<GeneralDict, LoadError>)
        ensures
            r is Ok ==> r->Ok_0 is Jmdict,
            r is Err ==> r->Err_0 == LoadError::Dictionary,
    {
        match jm_load_default() {
            Ok(d) => Ok(GeneralDict::Jmdict(d)),
            Err(_) => Err(LoadError::Dictionary),
        }
    }

    /// Exact lookup of `term`.
    pub fn lookup_exact(&self, term: &str) -> (r: Vec<DictCandidate>)
        ensures
            cands_view(r@) == general_exact(*self, term@),
    {
        match self {
            GeneralDict::Jmdict(d) => jm_lookup_exact(d, term),
            GeneralDict::Empty => Vec::new(),
        }
    }

    /// Exact lookup of `term` with deinflection fallback. The term must be
    /// wholly Japanese text; the deinflector does not take mixed-script
    /// terms (see `jm_lookup_deinflect`).
    pub fn lookup_deinflect(&self, term: &str) -> (r: Vec<DictCandidate>)
        requires
            crate::text::seq_is_japanese(term@),
        ensures
            cands_view(r@) == general_deinflect(*self, term@),
    {
        match self {
            GeneralDict::Jmdict(d) => jm_lookup_deinflect(d, term),
            GeneralDict::Empty => Vec::new(),
        }
    }

    /// Prefix lookup of `term`.
    pub fn lookup_partial(&self, term: &str) -> (r: Vec<DictCandidate>)
        ensures
            cands_view(r@) == general_partial(*self, term@),
    {
        match self {
            GeneralDict::Jmdict(d) => jm_lookup_partial(d, term),
            GeneralDict::Empty => Vec::new(),
        }
    }
}

} // verus!
