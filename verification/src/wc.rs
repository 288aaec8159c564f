//! Counting lines, words and bytes of a text, wc-style.

use vstd::prelude::*;
use vstd::string::StrSliceExecFns;
use vstd::string::StringExecFns;
use vstd::utf8::encode_utf8;
use crate::render::dec_of;
use crate::render::left_padded;
use crate::render::padded_usize;

verus! {

/// The three counts for one input: lines, words, bytes.
#[derive(Debug, Clone, Copy, PartialEq, Eq, Structural)]
pub struct FileInfo {
    pub lines: usize,
    pub words: usize,
    pub bytes: usize,
}

/// What `char::is_whitespace` returns for a character.
pub uninterp spec fn is_space(c: char) -> bool;

/// Relies on `char::is_whitespace`: whether a character is Unicode
/// whitespace depends on the character alone.
#[verifier::external_body]
fn char_is_space(c: char) -> (r: bool)
    ensures
        r == is_space(c),
{
    c.is_whitespace()
}

/// The number of words in a line: maximal runs of non-whitespace
/// characters. A character starts a word when it is not whitespace and is
/// either first or preceded by whitespace.
pub open spec fn word_count(s: Seq<char>) -> nat
    decreases s.len(),
{
    if s.len() == 0 {
        0
    } else {
        word_count(s.drop_last()) + if !is_space(s.last()) && (s.len() == 1 || is_space(
            s[s.len() - 2],
        )) {
            1nat
        } else {
            0nat
        }
    }
}

/// A line has no more words than characters.
pub proof fn lemma_word_count_le(s: Seq<char>)
    ensures
        word_count(s) <= s.len(),
    decreases s.len(),
{
    if s.len() > 0 {
        lemma_word_count_le(s.drop_last());
    }
}

/// Words summed over a sequence of lines.
pub open spec fn total_words(ls: Seq<Seq<char>>) -> nat
    decreases ls.len(),
{
    if ls.len() == 0 {
        0
    } else {
        total_words(ls.drop_last()) + word_count(ls.last())
    }
}

/// UTF-8 byte lengths summed over a sequence of lines.
pub open spec fn total_bytes(ls: Seq<Seq<char>>) -> nat
    decreases ls.len(),
{
    if ls.len() == 0 {
        0
    } else {
        total_bytes(ls.drop_last()) + encode_utf8(ls.last()).len()
    }
}

/// A sum reported in a `usize`: exact when it fits, pinned to the top of
/// the range when it does not.
pub open spec fn capped(n: nat) -> nat {
    if n <= usize::MAX {
        n
    } else {
        usize::MAX as nat
    }
}

/// Count the words of one line.
fn count_line_words(s: &str) -> (r: usize)
    ensures
        r == word_count(s@),
{
    let n = s.unicode_len();
    proof {
        assert(s@.take(0) =~= Seq::<char>::empty());
    }
    let mut cnt: usize = 0;
    let mut prev_space: bool = true;
    let mut i: usize = 0;
    while i < n
        invariant
            n == s@.len(),
            i <= n,
            cnt == word_count(s@.take(i as int)),
            prev_space == (i == 0 || is_space(s@[i as int - 1])),
        decreases n - i,
    {
        let c = s.get_char(i);
        let sp = char_is_space(c);
        proof {
            assert(s@.take(i as int + 1).drop_last() =~= s@.take(i as int));
            assert(s@.take(i as int + 1).last() == s@[i as int]);
            lemma_word_count_le(s@.take(i as int));
        }
        if !sp && prev_space {
            cnt += 1;
        }
        prev_space = sp;
        i += 1;
    }
    proof {
        assert(s@.take(n as int) =~= s@);
    }
    cnt
}

/// Add with the sum pinned to `usize::MAX` when it would not fit.
fn add_capped(a: usize, b: usize) -> (r: usize)
    ensures
        r as nat == capped(a as nat + b as nat),
{
    if a <= usize::MAX - b {
        a + b
    } else {
        usize::MAX
    }
}

/// Count lines, words and bytes over the given lines (each element one
/// line, with whatever terminator it was read with). The word and byte
/// totals are exact whenever they fit in a `usize`.
pub fn count(lines: &Vec<String>) -> (r: FileInfo)
    ensures
        r.lines == lines@.len(),
        r.words as nat == capped(total_words(lines@.map_values(|l: String| l@))),
        r.bytes as nat == capped(total_bytes(lines@.map_values(|l: String| l@))),
{
    let ghost ls = lines@.map_values(|l: String| l@);
    let mut words: usize = 0;
    let mut bytes: usize = 0;
    let mut i: usize = 0;
    proof {
        assert(ls.take(0) =~= Seq::<Seq<char>>::empty());
    }
    while i < lines.len()
        invariant
            ls == lines@.map_values(|l: String| l@),
            ls.len() == lines@.len(),
            i <= ls.len(),
            words as nat == capped(total_words(ls.take(i as int))),
            bytes as nat == capped(total_bytes(ls.take(i as int))),
        decreases ls.len() - i,
    {
        proof {
            assert(ls.take(i as int + 1).drop_last() =~= ls.take(i as int));
            assert(ls.take(i as int + 1).last() == ls[i as int]);
        }
        let w = count_line_words(lines[i].as_str());
        let b = lines[i].as_str().as_bytes().len();
        words = add_capped(words, w);
        bytes = add_capped(bytes, b);
        i += 1;
    }
    proof {
        assert(ls.take(ls.len() as int) =~= ls);
    }
    FileInfo { lines: lines.len(), words, bytes }
}

/// The report line for one input: each selected count left-aligned in a
/// six-character column (all three when none is selected), then the input's
/// name and a newline.
pub open spec fn counts_record(
    info: FileInfo,
    show_lines: bool,
    show_words: bool,
    show_bytes: bool,
    name: Seq<char>,
) -> Seq<char> {
    let none = !show_lines && !show_words && !show_bytes;
    (if show_lines || none {
        left_padded(dec_of(info.lines as nat), 6)
    } else {
        Seq::<char>::empty()
    }) + (if show_words || none {
        left_padded(dec_of(info.words as nat), 6)
    } else {
        Seq::<char>::empty()
    }) + (if show_bytes || none {
        left_padded(dec_of(info.bytes as nat), 6)
    } else {
        Seq::<char>::empty()
    }) + name + seq!['\n']
}

/// Render the wc report line for one input.
pub fn format_counts(
    info: &FileInfo,
    show_lines: bool,
    show_words: bool,
    show_bytes: bool,
    name: &str,
) -> (r: String)
    ensures
        r@ == counts_record(*info, show_lines, show_words, show_bytes, name@),
{
    let none = !show_lines && !show_words && !show_bytes;
    let mut out = String::new();
    if show_lines || none {
        let p = padded_usize(info.lines, 6);
        out.append(p.as_str());
    }
    if show_words || none {
        let p = padded_usize(info.words, 6);
        out.append(p.as_str());
    }
    if show_bytes || none {
        let p = padded_usize(info.bytes, 6);
        out.append(p.as_str());
    }
    out.append(name);
    out.append("\n");
    proof {
        reveal_strlit("\n");
        assert("\n"@ =~= seq!['\n']);
        assert(out@ =~= counts_record(*info, show_lines, show_words, show_bytes, name@));
    }
    out
}

} // verus!
