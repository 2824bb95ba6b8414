//! Collection of asset inclusions met while walking a Rust syntax tree.
//!
//! The walk itself belongs to the caller, which hands over each macro call it
//! meets as the text of its path and of its tokens.
use vstd::prelude::*;
use vstd::string::*;
use crate::text::{CharClass, chars_of, contains, contains_str, string_of_range, strip, strip_bounds, trim};

verus! {

broadcast use vstd::string::group_string_axioms;

/// Collects the files that `include_bytes!` and `include_str!` embed.
pub struct AssetVisitor {
    /// `(path, line, method)` of each inclusion, in the order met; the line is
    /// always 0, as the syntax tree does not tell it.
    assets: Vec<(String, usize, String)>,
}

/// The path that a macro's token text names: the text trimmed, stripped of
/// double quotes at both ends, trimmed again; nothing when that is empty.
pub open spec fn literal_of(tokens: Seq<char>) -> Option<Seq<char>> {
    let cleaned = trim(strip(trim(tokens), CharClass::Exactly('"')));
    if cleaned.len() > 0 {
        Some(cleaned)
    } else {
        None
    }
}

/// The inclusion that a macro call records: for a path naming `include_bytes`
/// or `include_str` and tokens naming a file, the file and the method.
pub open spec fn inclusion_of(path: Seq<char>, tokens: Seq<char>) -> Option<(Seq<char>, Seq<char>)> {
    if (contains(path, "include_bytes"@) || contains(path, "include_str"@)) && literal_of(tokens) is Some {
        Some(
            (
                literal_of(tokens).unwrap(),
                if contains(path, "include_bytes"@) {
                    "include_bytes!"@
                } else {
                    "include_str!"@
                },
            ),
        )
    } else {
        None
    }
}

pub open spec fn asset_entries(v: Seq<(String, usize, String)>) -> Seq<(Seq<char>, usize, Seq<char>)> {
    v.map_values(|x: (String, usize, String)| (x.0@, x.1, x.2@))
}

impl AssetVisitor {
    /// A visitor with nothing collected.
    pub fn new(source_file: &str) -> (r: Self)
        ensures
            r.entries().len() == 0,
    {
        AssetVisitor { assets: Vec::new() }
    }

    /// The inclusions collected so far.
    pub closed spec fn entries(&self) -> Seq<(Seq<char>, usize, Seq<char>)> {
        asset_entries(self.assets@)
    }

    /// The inclusions collected so far: `(path, line, method)`.
    pub fn assets(&self) -> (r: &Vec<(String, usize, String)>)
        ensures
            asset_entries(r@) == self.entries(),
    {
        &self.assets
    }

    /// Records the macro call whose path reads `path` and whose tokens read
    /// `tokens`, when it includes a file.
    pub fn record_macro(&mut self, path: &str, tokens: &str)
        ensures
            final(self).entries() == match inclusion_of(path@, tokens@) {
                Some((file, method)) => old(self).entries().push((file, 0usize, method)),
                None => old(self).entries(),
            },
    {
        let pv = chars_of(path);
        let is_bytes = contains_str(&pv, "include_bytes");
        if is_bytes || contains_str(&pv, "include_str") {
            match Self::extract_string_literal(tokens) {
                Some(file) => {
                    let method = if is_bytes {
                        String::from_str("include_bytes!")
                    } else {
                        String::from_str("include_str!")
                    };
                    let ghost before = self.assets@;
                    let ghost entry = (file@, 0usize, method@);
                    self.assets.push((file, 0, method));
                    assert(asset_entries(self.assets@) == asset_entries(before).push(entry));
                },
                None => {},
            }
        }
    }

    /// The path in a macro's token text: trimmed, stripped of surrounding
    /// double quotes, trimmed again; `None` when nothing is left.
    ///
    /// `"\"path/to/file.png\""` gives `path/to/file.png`; `""` gives `None`.
    pub fn extract_string_literal(tokens: &str) -> (r: Option<String>)
        ensures
            r matches Some(s) ==> literal_of(tokens@) == Some(s@),
            r is None ==> literal_of(tokens@) is None,
    {
        let v = chars_of(tokens);
        let n = v.len();
        assert(v@.subrange(0, n as int) == v@);
        let (a, b) = strip_bounds(&v, 0, n, CharClass::Whitespace);
        let (c, d) = strip_bounds(&v, a, b, CharClass::Exactly('"'));
        let (e, f) = strip_bounds(&v, c, d, CharClass::Whitespace);
        if e < f {
            Some(string_of_range(&v, e, f))
        } else {
            None
        }
    }
}

} // verus!
