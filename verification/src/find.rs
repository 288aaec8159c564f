//! find-style filtering: entry kinds, compiled name patterns, and the
//! decision whether a directory entry is kept.

use vstd::prelude::*;
use vstd::string::StringExecFns;
use crate::errors::FormatError;

verus! {

/// The kinds of directory entry the filter can ask for.
#[derive(Debug, Clone, Copy)]
pub enum EntryType {
    Dir,
    File,
    Link,
}

#[verifier::external_type_specification]
#[verifier::external_body]
pub struct ExRegex(regex::Regex);

#[verifier::external_type_specification]
#[verifier::external_body]
pub struct ExRegexError(regex::Error);

/// Is `pat` a pattern the regex engine accepts?
pub uninterp spec fn regex_valid(pat: Seq<char>) -> bool;

/// Does the pattern `pat` match somewhere in `text`? The answer depends
/// on the two texts alone.
pub uninterp spec fn regex_match(pat: Seq<char>, text: Seq<char>) -> bool;

/// A compiled name pattern, kept together with its source text.
pub struct CompiledPattern {
    re: regex::Regex,
    pattern: String,
}

impl CompiledPattern {
    /// The text this pattern was compiled from.
    pub closed spec fn pat(&self) -> Seq<char> {
        self.pattern@
    }

    /// Relies on `regex::Regex::new`: a pattern compiles exactly when the
    /// engine accepts its text, and the matcher is determined by that text.
    #[verifier::external_body]
    fn new_raw(pattern: &str) -> (r: Result<CompiledPattern, regex::Error>)
        ensures
            r is Ok <==> regex_valid(pattern@),
            r matches Ok(p) ==> p.pat() == pattern@,
    {
        match regex::Regex::new(pattern) {
            Ok(re) => Ok(CompiledPattern { re, pattern: pattern.to_string() }),
            Err(e) => Err(e),
        }
    }

    /// Compile a pattern, or report the text that was refused.
    pub fn new(pattern: &str) -> (r: Result<CompiledPattern, FormatError>)
        ensures
            r is Ok <==> regex_valid(pattern@),
            r matches Ok(p) ==> p.pat() == pattern@,
    {
        match Self::new_raw(pattern) {
            Ok(p) => Ok(p),
            Err(_) => Err(FormatError::new(pattern, "invalid name pattern")),
        }
    }

    /// Relies on `regex::Regex::is_match`: whether a compiled pattern
    /// matches a text depends on the pattern's source text and the text
    /// searched alone.
    #[verifier::external_body]
    pub(crate) fn is_match(&self, text: &str) -> (r: bool)
        ensures
            r == regex_match(self.pat(), text@),
    {
        self.re.is_match(text)
    }
}

/// Does an entry with these flags have the kind `t` asks for?
pub open spec fn type_matches(t: EntryType, is_dir: bool, is_file: bool, is_link: bool) -> bool {
    match t {
        EntryType::Dir => is_dir,
        EntryType::File => is_file,
        EntryType::Link => is_link,
    }
}

/// The find filter: an entry is kept exactly when one of the wanted kinds
/// fits it and one of the name patterns matches its path.
pub fn keep_entry(
    is_dir: bool,
    is_file: bool,
    is_link: bool,
    types: &Vec<EntryType>,
    names: &Vec<CompiledPattern>,
    path: &str,
) -> (r: bool)
    ensures
        r == ({
            &&& exists|k: int|
                0 <= k < types@.len() && type_matches(#[trigger] types@[k], is_dir, is_file, is_link)
            &&& exists|k: int|
                0 <= k < names@.len() && regex_match((#[trigger] names@[k]).pat(), path@)
        }),
{
    let mut type_ok = false;
    let mut i: usize = 0;
    while i < types.len()
        invariant
            i <= types@.len(),
            type_ok == exists|k: int|
                0 <= k < i && type_matches(#[trigger] types@[k], is_dir, is_file, is_link),
        decreases types@.len() - i,
    {
        let m = match types[i] {
            EntryType::Dir => is_dir,
            EntryType::File => is_file,
            EntryType::Link => is_link,
        };
        proof {
            if m {
                assert(type_matches(types@[i as int], is_dir, is_file, is_link));
            } else {
                assert(!type_matches(types@[i as int], is_dir, is_file, is_link));
            }
        }
        if m {
            type_ok = true;
        }
        i += 1;
    }
    if !type_ok {
        return false;
    }
    let mut j: usize = 0;
    while j < names.len()
        invariant
            j <= names@.len(),
            exists|k: int|
                0 <= k < types@.len() && type_matches(#[trigger] types@[k], is_dir, is_file, is_link),
            forall|k: int| 0 <= k < j ==> !regex_match((#[trigger] names@[k]).pat(), path@),
        decreases names@.len() - j,
    {
        if names[j].is_match(path) {
            proof {
                assert(regex_match(names@[j as int].pat(), path@));
            }
            return true;
        }
        j += 1;
    }
    false
}

} // verus!
