//! Configuration: parsing rules, language thresholds, import and export
//! settings, and how several configuration files merge into one.

use vstd::prelude::*;

use crate::level::JlptLevel;
use crate::level::SerializedJlptLevel;
use crate::node::Book;
use crate::util::seq_ends_with;
use crate::util::str_ends_with;

verus! {

/// A rule for matching document elements during parsing.
#[derive(Clone, Debug, PartialEq, Eq)]
pub enum ParseRule {
    /// Match an element by tag name.
    Element(String),
    /// Match an element by class name.
    Class(String),
}

impl ParseRule {
    /// A rule matching elements with the given tag name.
    pub fn from_element(elem: String) -> (r: Self)
        ensures
            r == ParseRule::Element(elem),
    {
        ParseRule::Element(elem)
    }

    /// A rule matching elements with the given class name.
    pub fn from_class(class: String) -> (r: Self)
        ensures
            r == ParseRule::Class(class),
    {
        ParseRule::Class(class)
    }

    /// An identical copy of the rule.
    pub fn duplicate(&self) -> (r: Self)
        ensures
            r == *self,
    {
        match self {
            ParseRule::Element(e) => ParseRule::Element(e.clone()),
            ParseRule::Class(c) => ParseRule::Class(c.clone()),
        }
    }
}

/// Flags handed to the document parser.
#[derive(Debug)]
pub struct ParseFlags {
    /// Nodes that are allowed to be parsed.
    pub allow: Vec<ParseRule>,
    /// Nodes that are skipped with their descendants.
    pub skip: Vec<ParseRule>,
    /// Whether the default parsing condition is in force.
    pub parsing: bool,
    /// Remaining depth for the parse.
    pub remaining_depth: usize,
}

impl Default for ParseFlags {
    /// Parse everything, up to the default depth.
    fn default() -> (r: Self)
        ensures
            r.allow@.len() == 0,
            r.skip@.len() == 0,
            r.parsing == true,
            r.remaining_depth == 10,
    {
        ParseFlags { allow: Vec::new(), skip: Vec::new(), parsing: true, remaining_depth: 10 }
    }
}

fn copy_rules(rules: &Vec<ParseRule>) -> (r: Vec<ParseRule>)
    ensures
        r@ == rules@,
{
    let mut r: Vec<ParseRule> = Vec::new();
    for i in 0..rules.len()
        invariant
            r@ == rules@.subrange(0, i as int),
    {
        r.push(rules[i].duplicate());
    }
    proof {
        assert(rules@.subrange(0, rules@.len() as int) =~= rules@);
    }
    r
}

/// HTML parsing configuration.
#[derive(Clone, Debug)]
pub struct HtmlParseConfig {
    /// User-agent for web requests.
    pub user_agent: String,
    /// The allow parse rules.
    pub allow: Vec<ParseRule>,
    /// The skip parse rules.
    pub skip: Vec<ParseRule>,
    /// Maximum parse depth, when set.
    pub depth: Option<usize>,
}

impl HtmlParseConfig {
    /// A configuration from its parts.
    pub fn new(user_agent: String, allow: Vec<ParseRule>, skip: Vec<ParseRule>, depth: Option<
        usize,
    >) -> (r: Self)
        ensures
            r.user_agent == user_agent,
            r.allow == allow,
            r.skip == skip,
            r.depth == depth,
    {
        HtmlParseConfig { user_agent, allow, skip, depth }
    }

    /// Fold another configuration into this one: a non-empty user agent and a
    /// set depth override, allow and skip rules accumulate.
    pub fn merge(&mut self, other: HtmlParseConfig)
        ensures
            final(self).user_agent@ == if other.user_agent@.len() > 0 {
                other.user_agent@
            } else {
                old(self).user_agent@
            },
            final(self).allow@ == old(self).allow@ + other.allow@,
            final(self).skip@ == old(self).skip@ + other.skip@,
            final(self).depth == if other.depth is Some {
                other.depth
            } else {
                old(self).depth
            },
    {
        let mut other = other;
        if !other.user_agent.as_str().is_empty() {
            self.user_agent = other.user_agent;
        }
        self.allow.append(&mut other.allow);
        self.skip.append(&mut other.skip);
        if let Some(depth) = other.depth {
            self.depth = Some(depth);
        }
    }

    /// The maximum parse depth; ten levels when none is configured.
    pub fn depth(&self) -> (r: usize)
        ensures
            r == match self.depth {
                Some(d) => d,
                None => 10usize,
            },
    {
        match self.depth {
            Some(d) => d,
            None => 10,
        }
    }

    /// The parse flags this configuration asks for: with any allow or skip
    /// rules present, default parsing is turned off and the rules govern.
    pub fn parse_flags(&self) -> (r: ParseFlags)
        ensures
            if self.allow@.len() > 0 || self.skip@.len() > 0 {
                &&& r.parsing == false
                &&& r.allow@ == self.allow@
                &&& r.skip@ == self.skip@
                &&& r.remaining_depth == 10
            } else {
                &&& r.parsing == true
                &&& r.allow@.len() == 0
                &&& r.skip@.len() == 0
                &&& r.remaining_depth == 10
            },
    {
        let mut pf = ParseFlags::default();
        if self.allow.len() > 0 || self.skip.len() > 0 {
            pf.parsing = false;
            pf.allow = copy_rules(&self.allow);
            pf.skip = copy_rules(&self.skip);
        }
        pf
    }
}

impl Default for HtmlParseConfig {
    /// No rules, no depth limit, and this tool's own user agent.
    fn default() -> (r: Self)
        ensures
            r.user_agent@ == "jdpub/0.1.0"@,
            r.allow@.len() == 0,
            r.skip@.len() == 0,
            r.depth is None,
    {
        HtmlParseConfig {
            user_agent: "jdpub/0.1.0".to_owned(),
            allow: Vec::new(),
            skip: Vec::new(),
            depth: None,
        }
    }
}

/// Parsing configuration.
#[derive(Clone, Debug)]
pub struct ParseConfig {
    /// HTML parsing configuration.
    pub html: HtmlParseConfig,
}

impl ParseConfig {
    /// Fold another parsing configuration into this one.
    pub fn merge(&mut self, other: ParseConfig)
        ensures
            final(self).html.user_agent@ == if other.html.user_agent@.len() > 0 {
                other.html.user_agent@
            } else {
                old(self).html.user_agent@
            },
            final(self).html.allow@ == old(self).html.allow@ + other.html.allow@,
            final(self).html.skip@ == old(self).html.skip@ + other.html.skip@,
            final(self).html.depth == if other.html.depth is Some {
                other.html.depth
            } else {
                old(self).html.depth
            },
    {
        self.html.merge(other.html);
    }
}

impl Default for ParseConfig {
    /// The default HTML parsing configuration.
    fn default() -> (r: Self)
        ensures
            r.html.user_agent@ == "jdpub/0.1.0"@,
            r.html.allow@.len() == 0,
            r.html.skip@.len() == 0,
            r.html.depth is None,
    {
        ParseConfig { html: HtmlParseConfig::default() }
    }
}

/// Japanese language configuration: the two annotation thresholds.
#[derive(Clone, Copy, Debug, PartialEq, Eq, Structural)]
pub struct JapaneseLanguageConfig {
    /// Threshold for glosses (tooltips).
    definitions: SerializedJlptLevel,
    /// Threshold for phonetic readings (furigana).
    furigana: SerializedJlptLevel,
}

impl JapaneseLanguageConfig {
    /// The gloss threshold this configuration denotes.
    pub closed spec fn spec_definitions(self) -> JlptLevel {
        self.definitions.spec_level()
    }

    /// The reading threshold this configuration denotes.
    pub closed spec fn spec_furigana(self) -> JlptLevel {
        self.furigana.spec_level()
    }

    /// The looser of the two thresholds: the least difficulty at which any
    /// annotation at all is produced.
    pub open spec fn spec_lowest_level(self) -> JlptLevel {
        if self.spec_definitions().spec_le(self.spec_furigana()) {
            self.spec_furigana()
        } else {
            self.spec_definitions()
        }
    }

    /// A configuration with the given thresholds.
    pub fn new(definitions: SerializedJlptLevel, furigana: SerializedJlptLevel) -> (r: Self)
        ensures
            r.spec_definitions() == definitions.spec_level(),
            r.spec_furigana() == furigana.spec_level(),
    {
        JapaneseLanguageConfig { definitions, furigana }
    }

    /// The least difficult (loosest) of the two threshold settings.
    pub fn lowest_level(&self) -> (r: JlptLevel)
        ensures
            r == self.spec_lowest_level(),
    {
        self.definitions().max(self.furigana())
    }

    /// The gloss (tooltip) threshold.
    pub fn definitions(&self) -> (r: JlptLevel)
        ensures
            r == self.spec_definitions(),
    {
        self.definitions.level()
    }

    /// The reading (furigana) threshold.
    pub fn furigana(&self) -> (r: JlptLevel)
        ensures
            r == self.spec_furigana(),
    {
        self.furigana.level()
    }
}

impl Default for JapaneseLanguageConfig {
    /// Both thresholds at N3.
    fn default() -> (r: Self)
        ensures
            r.spec_definitions() == JlptLevel::N3,
            r.spec_furigana() == JlptLevel::N3,
    {
        JapaneseLanguageConfig {
            definitions: SerializedJlptLevel::Level(JlptLevel::N3),
            furigana: SerializedJlptLevel::Level(JlptLevel::N3),
        }
    }
}

/// Language configuration.
#[derive(Clone, Copy, Debug, PartialEq, Eq, Structural)]
pub struct LanguageConfig {
    /// Use approximate lookups: deinflection, then prefix fallback.
    pub approximate: bool,
    /// Japanese language configuration.
    pub japanese: JapaneseLanguageConfig,
}

impl Default for LanguageConfig {
    /// Approximate lookups, with both thresholds at N3.
    fn default() -> (r: Self)
        ensures
            r.approximate == true,
            r.japanese.spec_definitions() == JlptLevel::N3,
            r.japanese.spec_furigana() == JlptLevel::N3,
    {
        LanguageConfig { approximate: true, japanese: JapaneseLanguageConfig::default() }
    }
}

/// One chapter to import.
#[derive(Clone, Debug)]
pub struct ChapterConfig {
    /// Chapter title; empty means untitled.
    pub title: String,
    /// Chapter uri: a path or an address.
    pub uri: String,
}

impl Default for ChapterConfig {
    /// An untitled chapter with no uri.
    fn default() -> (r: Self)
        ensures
            r.title@.len() == 0,
            r.uri@.len() == 0,
    {
        ChapterConfig { title: String::new(), uri: String::new() }
    }
}

/// Import configuration.
#[derive(Clone, Debug)]
pub struct ImportConfig {
    /// The chapters to import, in order.
    pub chapters: Vec<ChapterConfig>,
}

impl Default for ImportConfig {
    /// No chapters.
    fn default() -> (r: Self)
        ensures
            r.chapters@.len() == 0,
    {
        ImportConfig { chapters: Vec::new() }
    }
}

/// The output container format.
#[derive(Clone, Copy, Debug, PartialEq, Eq, Structural)]
pub enum ExportType {
    /// An EPUB book.
    Epub,
    /// A single HTML page.
    Html,
}

impl Default for ExportType {
    /// EPUB output.
    fn default() -> (r: Self)
        ensures
            r == ExportType::Epub,
    {
        ExportType::Epub
    }
}

/// What `ExportConfig::export_type` derives from an output file name: its
/// suffix picks the format, and EPUB is the fallback.
pub open spec fn export_type_spec(output: Seq<char>) -> ExportType {
    if seq_ends_with(output, ".epub"@) {
        ExportType::Epub
    } else if seq_ends_with(output, ".html"@) {
        ExportType::Html
    } else {
        ExportType::Epub
    }
}

/// Export configuration.
#[derive(Clone, Debug)]
pub struct ExportConfig {
    /// Book title.
    pub title: String,
    /// Book author.
    pub author: String,
    /// A cover image file, when set.
    pub cover: Option<String>,
    /// The output file.
    pub output_file: String,
}

impl ExportConfig {
    /// Fold another export configuration into this one: non-empty fields and
    /// a set cover override.
    pub fn merge(&mut self, other: ExportConfig)
        ensures
            final(self).title@ == if other.title@.len() > 0 {
                other.title@
            } else {
                old(self).title@
            },
            final(self).author@ == if other.author@.len() > 0 {
                other.author@
            } else {
                old(self).author@
            },
            final(self).cover == if other.cover is Some {
                other.cover
            } else {
                old(self).cover
            },
            final(self).output_file@ == if other.output_file@.len() > 0 {
                other.output_file@
            } else {
                old(self).output_file@
            },
    {
        if !other.title.as_str().is_empty() {
            self.title = other.title;
        }
        if let Some(cover) = other.cover {
            self.cover = Some(cover);
        }
        if !other.author.as_str().is_empty() {
            self.author = other.author;
        }
        if !other.output_file.as_str().is_empty() {
            self.output_file = other.output_file;
        }
    }

    /// A book shell carrying this configuration's title and author, with no
    /// chapters yet.
    pub fn book(&self) -> (r: Book)
        ensures
            r.title@ == self.title@,
            r.author@ == self.author@,
            r.chapters@.len() == 0,
    {
        Book { title: self.title.clone(), author: self.author.clone(), chapters: Vec::new() }
    }

    /// The output format, derived from the output file's suffix; EPUB when
    /// the suffix decides nothing.
    pub fn export_type(&self) -> (r: ExportType)
        ensures
            r == export_type_spec(self.output_file@),
    {
        if str_ends_with(self.output_file.as_str(), ".epub") {
            return ExportType::Epub;
        } else if str_ends_with(self.output_file.as_str(), ".html") {
            return ExportType::Html;
        }
        ExportType::Epub
    }
}

impl Default for ExportConfig {
    /// Empty titles and no files.
    fn default() -> (r: Self)
        ensures
            r.title@.len() == 0,
            r.author@.len() == 0,
            r.cover is None,
            r.output_file@.len() == 0,
    {
        ExportConfig {
            title: String::new(),
            author: String::new(),
            cover: None,
            output_file: String::new(),
        }
    }
}

/// The whole configuration.
#[derive(Clone, Debug)]
pub struct Config {
    /// Parse configuration.
    pub parse: ParseConfig,
    /// Language configuration.
    pub language: LanguageConfig,
    /// Import configuration.
    pub import: ImportConfig,
    /// Export configuration.
    pub export: ExportConfig,
}

impl Config {
    /// Fold another configuration into this one: parse and export sections
    /// merge field by field, import chapters accumulate, and the language
    /// section is replaced.
    pub fn merge(&mut self, other: Config)
        ensures
            final(self).parse.html.user_agent@ == if other.parse.html.user_agent@.len() > 0 {
                other.parse.html.user_agent@
            } else {
                old(self).parse.html.user_agent@
            },
            final(self).parse.html.allow@ == old(self).parse.html.allow@
                + other.parse.html.allow@,
            final(self).parse.html.skip@ == old(self).parse.html.skip@ + other.parse.html.skip@,
            final(self).parse.html.depth == if other.parse.html.depth is Some {
                other.parse.html.depth
            } else {
                old(self).parse.html.depth
            },
            final(self).import.chapters@ == old(self).import.chapters@
                + other.import.chapters@,
            final(self).language == other.language,
            final(self).export.title@ == if other.export.title@.len() > 0 {
                other.export.title@
            } else {
                old(self).export.title@
            },
            final(self).export.author@ == if other.export.author@.len() > 0 {
                other.export.author@
            } else {
                old(self).export.author@
            },
            final(self).export.cover == if other.export.cover is Some {
                other.export.cover
            } else {
                old(self).export.cover
            },
            final(self).export.output_file@ == if other.export.output_file@.len() > 0 {
                other.export.output_file@
            } else {
                old(self).export.output_file@
            },
    {
        let mut other = other;
        self.parse.merge(other.parse);
        self.import.chapters.append(&mut other.import.chapters);
        self.language = other.language;
        self.export.merge(other.export);
    }
}

impl Default for Config {
    /// The default of every section.
    fn default() -> (r: Self)
        ensures
            r.parse.html.user_agent@ == "jdpub/0.1.0"@,
            r.parse.html.allow@.len() == 0,
            r.parse.html.skip@.len() == 0,
            r.language.approximate == true,
            r.language.japanese.spec_definitions() == JlptLevel::N3,
            r.language.japanese.spec_furigana() == JlptLevel::N3,
            r.import.chapters@.len() == 0,
            r.export.title@.len() == 0,
            r.export.author@.len() == 0,
            r.export.cover is None,
            r.export.output_file@.len() == 0,
    {
        Config {
            parse: ParseConfig::default(),
            language: LanguageConfig::default(),
            import: ImportConfig::default(),
            export: ExportConfig::default(),
        }
    }
}

/// The command line as the program takes it.
#[derive(Clone, Debug)]
pub struct Cli {
    /// Input chapters or book files.
    pub input: Vec<String>,
    /// Output file.
    pub output: Option<String>,
    /// Additional configuration file, parsed first.
    pub config: Option<String>,
    /// Debug flag.
    pub debug: bool,
    /// Verbose flag.
    pub verbose: bool,
    /// Skip built-in configurations.
    pub do_not_use_builtin: bool,
}

} // verus!
