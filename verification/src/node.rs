//! The document tree that the annotation transform walks.
//!
//! A document is a recursive sum of empty nodes, sections (ordered lists of
//! child nodes) and text nodes (ordered lists of fragments). The transform
//! rewrites the fragment list of each text node and touches nothing else.

use vstd::prelude::*;

verus! {

/// How the children of a section are ordered, which affects markup choice
/// downstream but not the transform's traversal.
#[derive(Clone, Copy, Debug, PartialEq, Eq, Structural)]
pub enum SectionOrdering {
    /// An unordered group of alternatives.
    Unordered,
    /// Sequential content.
    List,
    /// Enumerated content.
    Enumeration,
}

/// Attributes attached to a text fragment.
#[derive(Clone, Debug)]
pub struct TextAttributes {
    /// Preformatted, code, or mono font.
    pub preformatted: bool,
    /// Italic font.
    pub italic: bool,
    /// Bold font.
    pub bold: bool,
    /// Heading value, 1 through 6.
    pub heading: Option<u8>,
    /// A link target.
    pub link: Option<String>,
    /// An annotated tooltip.
    pub tooltip: Option<String>,
    /// A phonetic reading placed above the text.
    pub annotation: Option<String>,
}

/// Mathematical model of a fragment's attributes.
pub struct AttrModel {
    pub preformatted: bool,
    pub italic: bool,
    pub bold: bool,
    pub heading: Option<u8>,
    pub link: Option<Seq<char>>,
    pub tooltip: Option<Seq<char>>,
    pub annotation: Option<Seq<char>>,
}

impl AttrModel {
    /// The model of attributes that carry nothing.
    pub open spec fn plain() -> AttrModel {
        AttrModel {
            preformatted: false,
            italic: false,
            bold: false,
            heading: None,
            link: None,
            tooltip: None,
            annotation: None,
        }
    }

    /// Whether the attributes carry nothing.
    pub open spec fn is_plain(self) -> bool {
        self == AttrModel::plain()
    }
}

impl View for TextAttributes {
    type V = AttrModel;

    open spec fn view(&self) -> AttrModel {
        AttrModel {
            preformatted: self.preformatted,
            italic: self.italic,
            bold: self.bold,
            heading: self.heading,
            link: match self.link {
                Some(s) => Some(s@),
                None => None,
            },
            tooltip: match self.tooltip {
                Some(s) => Some(s@),
                None => None,
            },
            annotation: match self.annotation {
                Some(s) => Some(s@),
                None => None,
            },
        }
    }
}

impl TextAttributes {
    /// Fresh attributes that carry nothing.
    pub fn new() -> (r: Self)
        ensures
            r@ == AttrModel::plain(),
    {
        TextAttributes {
            preformatted: false,
            italic: false,
            bold: false,
            heading: None,
            link: None,
            tooltip: None,
            annotation: None,
        }
    }

    /// Whether the attributes carry nothing: such a fragment renders as
    /// plain text.
    pub fn is_plain(&self) -> (r: bool)
        ensures
            r == self@.is_plain(),
    {
        !self.preformatted && !self.italic && !self.bold && self.heading.is_none()
            && self.link.is_none() && self.tooltip.is_none() && self.annotation.is_none()
    }
}

impl Default for TextAttributes {
    /// Attributes that carry nothing.
    fn default() -> (r: Self)
        ensures
            r@ == AttrModel::plain(),
    {
        TextAttributes::new()
    }
}

/// A run of text with one set of attributes.
#[derive(Clone, Debug)]
pub struct TextFragment {
    /// The fragment's text.
    pub text: String,
    /// The fragment's attributes.
    pub attributes: TextAttributes,
}

/// Mathematical model of a fragment.
pub struct FragModel {
    pub text: Seq<char>,
    pub attributes: AttrModel,
}

impl FragModel {
    /// The model of a plain fragment with the given text.
    pub open spec fn plain(text: Seq<char>) -> FragModel {
        FragModel { text, attributes: AttrModel::plain() }
    }
}

impl View for TextFragment {
    type V = FragModel;

    open spec fn view(&self) -> FragModel {
        FragModel { text: self.text@, attributes: self.attributes@ }
    }
}

impl TextFragment {
    /// A fragment with the given text; absent attributes mean plain text.
    pub fn new(text: String, attributes: Option<TextAttributes>) -> (r: Self)
        ensures
            r@.text == text@,
            r@.attributes == match attributes {
                Some(a) => a@,
                None => AttrModel::plain(),
            },
    {
        TextFragment {
            text,
            attributes: match attributes {
                Some(attr) => attr,
                None => TextAttributes::new(),
            },
        }
    }
}

/// The models of a list of fragments, in order.
pub open spec fn frags_view(frags: Seq<TextFragment>) -> Seq<FragModel> {
    frags.map_values(|f: TextFragment| f@)
}

/// A text node: an ordered list of fragments.
#[derive(Clone, Debug)]
pub struct Text {
    /// The fragments, in document order.
    pub fragments: Vec<TextFragment>,
}

impl Text {
    /// A text node with no fragments yet.
    pub fn new() -> (r: Self)
        ensures
            r.fragments@.len() == 0,
    {
        Text { fragments: Vec::new() }
    }
}

/// A section node: an ordered list of child nodes.
#[derive(Debug)]
pub struct Section {
    /// The child nodes, in document order.
    pub nodes: Vec<Node>,
    /// How the children are ordered.
    pub ordering: SectionOrdering,
}

/// A node of the document tree.
#[derive(Debug)]
pub enum Node {
    /// Nothing.
    Empty,
    /// An ordered list of child nodes.
    Section(Section),
    /// An ordered list of text fragments.
    Text(Text),
}

/// Whether two trees have the same shape: the same arrangement of Empty,
/// Section and Text nodes with the same orderings, differing at most in the
/// fragments of text nodes.
pub open spec fn same_shape(a: Node, b: Node) -> bool
    decreases a,
{
    match (a, b) {
        (Node::Empty, Node::Empty) => true,
        (Node::Section(s), Node::Section(t)) => {
            &&& t.ordering == s.ordering
            &&& t.nodes@.len() == s.nodes@.len()
            &&& forall|i: int|
                0 <= i < s.nodes@.len() ==> same_shape(#[trigger] s.nodes@[i], t.nodes@[i])
        },
        (Node::Text(_), Node::Text(_)) => true,
        _ => false,
    }
}

/// A chapter of a book: an optional title and a document tree.
#[derive(Debug)]
pub struct Chapter {
    /// The chapter title, if one was configured or found.
    pub title: Option<String>,
    /// The chapter's document tree.
    pub root: Node,
}

/// A book to be annotated and exported.
#[derive(Debug)]
pub struct Book {
    /// The book title.
    pub title: String,
    /// The book author.
    pub author: String,
    /// The chapters, in order.
    pub chapters: Vec<Chapter>,
}

} // verus!
