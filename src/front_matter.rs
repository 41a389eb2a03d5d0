//! Metadata blocks at the head of a Markdown document.
use crate::text::{find_from, find_str, lemma_find_from_found, matches_at, occurs_at};
use vstd::prelude::*;
use vstd::string::*;

verus! {

#[verifier::external_type_specification]
#[verifier::external_body]
pub struct ExYamlError(serde_yaml::Error);

/// The entries of a flat YAML mapping of strings to strings, or `None` where the
/// text is not one.
pub uninterp spec fn yaml_string_pairs(text: Seq<char>) -> Option<Seq<(Seq<char>, Seq<char>)>>;

/// The key/value pairs of `v`, as character sequences.
pub open spec fn pairs_view(v: Seq<(String, String)>) -> Seq<(Seq<char>, Seq<char>)> {
    v.map_values(|p: (String, String)| (p.0@, p.1@))
}

/// No key stands twice.
pub open spec fn keys_unique(s: Seq<(Seq<char>, Seq<char>)>) -> bool {
    forall|i: int, j: int| 0 <= i < j < s.len() ==> s[i].0 != s[j].0
}

/// Relies on `serde_yaml::from_str` into a `BTreeMap<String, String>`: it fails
/// where the text is not a mapping of scalars (a nested list or map, or text
/// that is no YAML); a plain scalar such as a number is read as its text. A map
/// holds each key once.
#[verifier::external_body]
fn parse_yaml_pairs(text: &str) -> (r: Result<Vec<(String, String)>, serde_yaml::Error>)
    ensures
        match r {
            Ok(v) => yaml_string_pairs(text@) == Some(pairs_view(v@)) && keys_unique(
                pairs_view(v@),
            ),
            Err(_) => yaml_string_pairs(text@) is None,
        },
{
    serde_yaml::from_str::<std::collections::BTreeMap<String, String>>(text).map(
        |m| m.into_iter().collect(),
    )
}

/// The delimiter line `---` ended by a line feed.
pub open spec fn delimiter_lf() -> Seq<char> {
    seq!['-', '-', '-', '\n']
}

/// The delimiter line `---` ended by a carriage return and a line feed.
pub open spec fn delimiter_crlf() -> Seq<char> {
    seq!['-', '-', '-', '\r', '\n']
}

/// The delimiter line that opens `s`, if one does.
pub open spec fn opening_delimiter(s: Seq<char>) -> Option<Seq<char>> {
    if occurs_at(s, delimiter_lf(), 0) {
        Some(delimiter_lf())
    } else if occurs_at(s, delimiter_crlf(), 0) {
        Some(delimiter_crlf())
    } else {
        None
    }
}

/// The metadata block of `s` and the text after its closing delimiter: the block
/// runs from the opening delimiter to the next occurrence of the same delimiter.
pub open spec fn split_front_matter(s: Seq<char>) -> Option<(Seq<char>, Seq<char>)> {
    match opening_delimiter(s) {
        None => None,
        Some(d) => match find_from(s, d, d.len() as int) {
            None => None,
            Some(k) => Some((s.subrange(d.len() as int, k), s.subrange(k + d.len(), s.len() as int))),
        },
    }
}

/// A flat mapping of string keys to string values, each key once.
pub struct FrontMatter {
    pub vars: Vec<(String, String)>,
}

/// A metadata block that was found but is not a flat mapping of strings.
pub struct MetadataParseError;

impl FrontMatter {
    pub open spec fn view(&self) -> Seq<(Seq<char>, Seq<char>)> {
        pairs_view(self.vars@)
    }

    pub open spec fn wf(&self) -> bool {
        keys_unique(self@)
    }

    /// Takes the leading metadata block off `input` and parses it.
    ///
    /// Where `input` opens with a delimiter line and holds a second one, the two
    /// lines and the block between them are removed and the parsed block is
    /// returned. Otherwise `input` stays as it was and `None` comes back. A
    /// block that does not parse is an error, and `input` stays as it was.
    pub fn split_yml_from_string(input: &mut String) -> (r: Result<
        Option<FrontMatter>,
        MetadataParseError,
    >)
        ensures
            match split_front_matter(old(input)@) {
                None => r matches Ok(None) && final(input)@ == old(input)@,
                Some((block, rest)) => match yaml_string_pairs(block) {
                    None => r is Err && final(input)@ == old(input)@,
                    Some(pairs) => r matches Ok(Some(fm)) && fm@ == pairs && fm.wf()
                        && final(input)@ == rest,
                },
            },
    {
        broadcast use vstd::string::group_string_axioms;

        let s: &str = input.as_str();
        proof {
            reveal_strlit("---\n");
            reveal_strlit("---\r\n");
            assert("---\n"@ =~= delimiter_lf());
            assert("---\r\n"@ =~= delimiter_crlf());
        }
        let n = s.unicode_len();
        let delim: &str = if n >= 4 && matches_at(s, "---\n", 0) {
            "---\n"
        } else if n >= 5 && matches_at(s, "---\r\n", 0) {
            "---\r\n"
        } else {
            assert(opening_delimiter(s@) is None);
            return Ok(None);
        };
        let d = delim.unicode_len();
        let close = find_str(s, delim, d);
        match close {
            None => Ok(None),
            Some(k) => {
                proof {
                    lemma_find_from_found(s@, delim@, d as int);
                }
                let block = s.substring_char(d, k);
                match parse_yaml_pairs(block) {
                    Err(_) => Err(MetadataParseError),
                    Ok(vars) => {
                        let rest = String::from_str(s.substring_char(k + d, n));
                        *input = rest;
                        Ok(Some(FrontMatter { vars }))
                    },
                }
            },
        }
    }
}

/// Putting the delimiter lines back around the block and the rest gives the
/// text that was split.
pub proof fn lemma_split_rejoins(s: Seq<char>)
    requires
        split_front_matter(s) is Some,
    ensures
        ({
            let d = opening_delimiter(s)->0;
            let (block, rest) = split_front_matter(s)->0;
            d + block + d + rest == s
        }),
{
    let d = opening_delimiter(s)->0;
    let k = find_from(s, d, d.len() as int)->0;
    lemma_find_from_found(s, d, d.len() as int);
    let (block, rest) = split_front_matter(s)->0;
    assert(s.subrange(0, d.len() as int) == d);
    assert(s.subrange(k, k + d.len()) == d);
    assert(d + block + d + rest =~= s);
}

/// Text that opens with no delimiter line has no metadata block.
pub proof fn lemma_no_delimiter_no_block(s: Seq<char>)
    requires
        !occurs_at(s, delimiter_lf(), 0),
        !occurs_at(s, delimiter_crlf(), 0),
    ensures
        split_front_matter(s) is None,
{
}

} // verus!
