//! Small helpers: suffix tests, mimetypes, and bundled data files.

use vstd::prelude::*;

use crate::text::str_chars;

verus! {

/// Whether `s` ends with `suffix`.
pub open spec fn seq_ends_with(s: Seq<char>, suffix: Seq<char>) -> bool {
    suffix.len() <= s.len() && s.subrange(s.len() - suffix.len(), s.len() as int) == suffix
}

/// Whether the string ends with the given suffix.
pub fn str_ends_with(s: &str, suffix: &str) -> (r: bool)
    ensures
        r == seq_ends_with(s@, suffix@),
{
    let sc = str_chars(s);
    let fc = str_chars(suffix);
    if fc.len() > sc.len() {
        return false;
    }
    let off = sc.len() - fc.len();
    for j in 0..fc.len()
        invariant
            sc@ == s@,
            fc@ == suffix@,
            fc@.len() <= sc@.len(),
            off == sc@.len() - fc@.len(),
            forall|m: int| 0 <= m < j ==> sc@[off + m] == fc@[m],
    {
        assert(off + j < sc.len());
        if sc[off + j] != fc[j] {
            proof {
                assert(s@.subrange(s@.len() - suffix@.len(), s@.len() as int)[j as int]
                    != suffix@[j as int]);
            }
            return false;
        }
    }
    proof {
        assert(s@.subrange(s@.len() - suffix@.len(), s@.len() as int) =~= suffix@);
    }
    true
}

/// The mimetype reported for each resource suffix.
pub open spec fn mimetype_spec(s: Seq<char>) -> Seq<char> {
    if seq_ends_with(s, ".css"@) {
        "text/css"@
    } else if seq_ends_with(s, ".epub"@) {
        "application/epub+zip"@
    } else if seq_ends_with(s, ".gif"@) {
        "image/gif"@
    } else if seq_ends_with(s, ".html"@) {
        "text/html"@
    } else if seq_ends_with(s, ".ico"@) {
        "image/vdn.microsoft.icon"@
    } else if seq_ends_with(s, ".jpg"@) {
        "image/jpeg"@
    } else if seq_ends_with(s, ".jpeg"@) {
        "image/jpeg"@
    } else if seq_ends_with(s, ".js"@) {
        "text/javascript"@
    } else if seq_ends_with(s, ".md"@) {
        "text/plain"@
    } else if seq_ends_with(s, ".otf"@) {
        "font/otf"@
    } else if seq_ends_with(s, ".png"@) {
        "image/png"@
    } else if seq_ends_with(s, ".toml"@) {
        "text/plain"@
    } else if seq_ends_with(s, ".ttf"@) {
        "font/ttf"@
    } else if seq_ends_with(s, ".txt"@) {
        "text/plain"@
    } else if seq_ends_with(s, ".woff"@) {
        "font/woff"@
    } else if seq_ends_with(s, ".woff2"@) {
        "font/woff2"@
    } else if seq_ends_with(s, ".xhtml"@) {
        "application/xhtml+xml"@
    } else {
        "application/octet-stream"@
    }
}

/// The mimetype to serve a resource under, derived from its suffix;
/// unknown suffixes fall back to a generic byte stream.
pub fn get_mimetype(resource: &str) -> (r: &'static str)
    ensures
        r@ == mimetype_spec(resource@),
{
    if str_ends_with(resource, ".css") {
        "text/css"
    } else if str_ends_with(resource, ".epub") {
        "application/epub+zip"
    } else if str_ends_with(resource, ".gif") {
        "image/gif"
    } else if str_ends_with(resource, ".html") {
        "text/html"
    } else if str_ends_with(resource, ".ico") {
        "image/vdn.microsoft.icon"
    } else if str_ends_with(resource, ".jpg") {
        "image/jpeg"
    } else if str_ends_with(resource, ".jpeg") {
        "image/jpeg"
    } else if str_ends_with(resource, ".js") {
        "text/javascript"
    } else if str_ends_with(resource, ".md") {
        "text/plain"
    } else if str_ends_with(resource, ".otf") {
        "font/otf"
    } else if str_ends_with(resource, ".png") {
        "image/png"
    } else if str_ends_with(resource, ".toml") {
        "text/plain"
    } else if str_ends_with(resource, ".ttf") {
        "font/ttf"
    } else if str_ends_with(resource, ".txt") {
        "text/plain"
    } else if str_ends_with(resource, ".woff") {
        "font/woff"
    } else if str_ends_with(resource, ".woff2") {
        "font/woff2"
    } else if str_ends_with(resource, ".xhtml") {
        "application/xhtml+xml"
    } else {
        "application/octet-stream"
    }
}

/// A bundled data file's contents.
#[derive(Clone, Debug)]
pub struct EmbeddedData(pub Vec<u8>);

impl EmbeddedData {
    /// An empty placeholder.
    pub fn empty() -> (r: Self)
        ensures
            r.0@ == Seq::<u8>::empty(),
    {
        EmbeddedData(Vec::new())
    }
}

/// Looking a bundled file up failed.
#[derive(Clone, Copy, Debug, PartialEq, Eq, Structural)]
pub enum EmbedError {
    /// No file of that name is bundled.
    Missing,
    /// The file is not valid UTF-8 text.
    NotUtf8,
}

/// The models of a bundle's files: name and contents, in order.
pub open spec fn embedded_view(files: Seq<(String, EmbeddedData)>) -> Seq<(Seq<char>, Seq<u8>)> {
    files.map_values(|f: (String, EmbeddedData)| (f.0@, f.1.0@))
}

/// The contents of the first bundled file named `path`.
pub open spec fn find_embedded(files: Seq<(Seq<char>, Seq<u8>)>, path: Seq<char>) -> Option<
    Seq<u8>,
>
    decreases files.len(),
{
    if files.len() == 0 {
        None
    } else if files[0].0 == path {
        Some(files[0].1)
    } else {
        find_embedded(files.drop_first(), path)
    }
}

/// Look a bundled file up by name.
pub fn read_embedded_data<'a>(files: &'a Vec<(String, EmbeddedData)>, path: &str) -> (r: Result<
    &'a EmbeddedData,
    EmbedError,
>)
    ensures
        match r {
            Ok(d) => find_embedded(embedded_view(files@), path@) == Some(d.0@),
            Err(e) => {
                &&& find_embedded(embedded_view(files@), path@) is None
                &&& e == EmbedError::Missing
            },
        },
{
    let p: String = path.to_owned();
    proof {
        assert(embedded_view(files@).skip(0) =~= embedded_view(files@));
    }
    for i in 0..files.len()
        invariant
            p@ == path@,
            find_embedded(embedded_view(files@), path@) == find_embedded(
                embedded_view(files@).skip(i as int),
                path@,
            ),
    {
        if files[i].0 == p {
            proof {
                assert(embedded_view(files@).skip(i as int)[0] == embedded_view(
                    files@,
                )[i as int]);
            }
            return Ok(&files[i].1);
        }
        proof {
            assert(embedded_view(files@).skip(i as int)[0] == embedded_view(files@)[i as int]);
            assert(embedded_view(files@).skip(i as int).drop_first() =~= embedded_view(
                files@,
            ).skip(i + 1));
        }
    }
    proof {
        assert(embedded_view(files@).skip(files@.len() as int) =~= Seq::<(
            Seq<char>,
            Seq<u8>,
        )>::empty());
    }
    Err(EmbedError::Missing)
}

/// Relies on `std::str::from_utf8`: decodes the bytes as UTF-8 text, or
/// fails when they are not valid UTF-8.
#[verifier::external_body]
fn utf8_string(b: &Vec<u8>) -> (r: Option<String>)
    ensures
        match r {
            Some(s) => vstd::utf8::valid_utf8(b@) && vstd::utf8::encode_utf8(s@) == b@,
            None => !vstd::utf8::valid_utf8(b@),
        },
{
    std::str::from_utf8(b.as_slice()).ok().map(|s| s.to_string())
}

/// Look a bundled file up by name and decode it as UTF-8 text.
pub fn read_embedded_text(files: &Vec<(String, EmbeddedData)>, path: &str) -> (r: Result<
    String,
    EmbedError,
>)
    ensures
        match r {
            Ok(s) => {
                &&& find_embedded(embedded_view(files@), path@) matches Some(b)
                &&& vstd::utf8::encode_utf8(s@) == find_embedded(
                    embedded_view(files@),
                    path@,
                )->Some_0
            },
            Err(EmbedError::Missing) => find_embedded(embedded_view(files@), path@) is None,
            Err(EmbedError::NotUtf8) => {
                &&& find_embedded(embedded_view(files@), path@) matches Some(b)
                &&& !vstd::utf8::valid_utf8(
                    find_embedded(embedded_view(files@), path@)->Some_0,
                )
            },
        },
{
    let data = match read_embedded_data(files, path) {
        Ok(d) => d,
        Err(e) => {
            return Err(e);
        },
    };
    match utf8_string(&data.0) {
        Some(s) => Ok(s),
        None => Err(EmbedError::NotUtf8),
    }
}

} // verus!
