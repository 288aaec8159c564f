//! Cutting columns out of a line: bytes, characters or delimited fields,
//! picked by a selector and joined back into one output line.

use vstd::prelude::*;
use vstd::string::StrSliceExecFns;
use vstd::string::StringExecFns;
use vstd::string::StringSliceAdditionalSpecFns;
use crate::render::char_to_string;
use crate::render::dec_of;
use crate::render::usize_to_string;
use crate::text::split_on;
use crate::text::split_fields;

verus! {

/// What one line is cut into: its bytes, its characters, or the fields
/// between delimiters.
#[derive(Debug, Clone, Copy)]
pub enum EntryType {
    Byte,
    Char,
    Field,
}

/// The selected positions that actually exist in a sequence of `len`
/// elements, in the order requested, duplicates kept.
pub open spec fn kept_of(indices: Seq<usize>, len: int) -> Seq<usize> {
    indices.filter(|i: usize| (i as int) < len)
}

/// The separator a delimiter choice stands for: one character or nothing.
pub open spec fn sep_text(d: Option<char>) -> Seq<char> {
    match d {
        Some(c) => seq![c],
        None => Seq::<char>::empty(),
    }
}

/// The pieces joined left to right with the separator between them.
pub open spec fn join_with(items: Seq<Seq<char>>, d: Option<char>) -> Seq<char>
    decreases items.len(),
{
    if items.len() == 0 {
        Seq::<char>::empty()
    } else if items.len() == 1 {
        items[0]
    } else {
        join_with(items.drop_last(), d) + sep_text(d) + items.last()
    }
}

/// The texts of `items` at the positions in `kept`.
pub open spec fn picked_texts(items: Seq<String>, kept: Seq<usize>) -> Seq<Seq<char>> {
    kept.map_values(|i: usize| items[i as int]@)
}

/// Joining one more piece appends a separator and the piece.
pub proof fn lemma_join_push(items: Seq<Seq<char>>, x: Seq<char>, d: Option<char>)
    requires
        items.len() >= 1,
    ensures
        join_with(items.push(x), d) == join_with(items, d) + sep_text(d) + x,
{
    assert(items.push(x).drop_last() =~= items);
    assert(items.push(x).last() == x);
    assert(items.push(x).len() >= 2);
}

/// Keep the requested positions that exist among `len` elements. The
/// selector acts as a filter: positions past the end are dropped silently,
/// order and duplicates are kept.
pub fn select_indices(indices: &Vec<usize>, len: usize) -> (r: Vec<usize>)
    ensures
        r@ == kept_of(indices@, len as int),
{
    let mut r: Vec<usize> = Vec::new();
    let mut k: usize = 0;
    proof {
        assert(indices@.take(0) =~= Seq::<usize>::empty());
    }
    while k < indices.len()
        invariant
            k <= indices@.len(),
            r@ == kept_of(indices@.take(k as int), len as int),
        decreases indices@.len() - k,
    {
        let x = indices[k];
        proof {
            assert(indices@.take(k as int + 1) =~= indices@.take(k as int).push(
                indices@[k as int],
            ));
            indices@.take(k as int).lemma_filter_push(
                indices@[k as int],
                |i: usize| (i as int) < len as int,
            );
        }
        if x < len {
            r.push(x);
        }
        k += 1;
    }
    proof {
        assert(indices@.take(indices@.len() as int) =~= indices@);
    }
    r
}

/// Join the items at the selected (existing) positions, separator between
/// them and a newline after; nothing at all when no position exists.
pub fn join_selected(items: &Vec<String>, indices: &Vec<usize>, delim: Option<char>) -> (r: Option<
    String,
>)
    ensures
        r is Some <==> kept_of(indices@, items@.len() as int).len() > 0,
        r matches Some(s) ==> s@ == join_with(
            picked_texts(items@, kept_of(indices@, items@.len() as int)),
            delim,
        ) + seq!['\n'],
{
    let ghost kept_spec = kept_of(indices@, items@.len() as int);
    let kept = select_indices(indices, items.len());
    proof {
        assert forall|i: int| 0 <= i < kept_spec.len() implies (kept_spec[i] as int)
            < items@.len() by {
            indices@.lemma_filter_pred(|i: usize| (i as int) < items@.len() as int, i);
        }
    }
    if kept.len() == 0 {
        return None;
    }
    let ghost texts = picked_texts(items@, kept_spec);
    let mut acc = items[kept[0]].clone();
    proof {
        assert(kept_spec.take(1).map_values(|i: usize| items@[i as int]@) =~= seq![acc@]);
    }
    let mut t: usize = 1;
    while t < kept.len()
        invariant
            kept@ == kept_spec,
            texts == picked_texts(items@, kept_spec),
            forall|i: int| 0 <= i < kept_spec.len() ==> (#[trigger] kept_spec[i] as int)
                < items@.len(),
            1 <= t <= kept_spec.len(),
            acc@ == join_with(
                kept_spec.take(t as int).map_values(|i: usize| items@[i as int]@),
                delim,
            ),
        decreases kept@.len() - t,
    {
        match delim {
            Some(c) => {
                let cs = char_to_string(c);
                acc.append(cs.as_str());
            },
            None => {},
        }
        acc.append(items[kept[t]].as_str());
        proof {
            let f = |i: usize| items@[i as int]@;
            let prefix = kept_spec.take(t as int).map_values(f);
            assert(kept_spec.take(t as int + 1) =~= kept_spec.take(t as int).push(
                kept_spec[t as int],
            ));
            assert(kept_spec.take(t as int + 1).map_values(f) =~= prefix.push(
                f(kept_spec[t as int]),
            ));
            lemma_join_push(prefix, f(kept_spec[t as int]), delim);
            assert(acc@ =~= join_with(prefix, delim) + sep_text(delim) + f(kept_spec[t as int]));
        }
        t += 1;
    }
    proof {
        assert(kept_spec.take(kept_spec.len() as int) =~= kept_spec);
    }
    acc.append("\n");
    proof {
        reveal_strlit("\n");
        assert("\n"@ =~= seq!['\n']);
    }
    Some(acc)
}

/// Cut one line: break it into bytes, characters or fields, keep the
/// selected positions, and join them back (fields keep their delimiter;
/// bytes are written as decimal numbers). `None` when nothing survives.
pub fn cut_line(line: &str, entry_type: EntryType, indices: &Vec<usize>, delim: char) -> (r: Option<
    String,
>)
    ensures
        ({
            let items = match entry_type {
                EntryType::Byte => line.spec_bytes().map_values(|b: u8| dec_of(b as nat)),
                EntryType::Char => line@.map_values(|c: char| seq![c]),
                EntryType::Field => split_on(line@, delim),
            };
            let d = match entry_type {
                EntryType::Field => Some(delim),
                _ => None::<char>,
            };
            let kept = kept_of(indices@, items.len() as int);
            &&& (r is Some <==> kept.len() > 0)
            &&& (r matches Some(s) ==> s@ == join_with(
                kept.map_values(|i: usize| items[i as int]),
                d,
            ) + seq!['\n'])
        }),
{
    let items: Vec<String>;
    let d: Option<char>;
    match entry_type {
        EntryType::Byte => {
            let bs = line.as_bytes();
            let mut v: Vec<String> = Vec::new();
            let mut i: usize = 0;
            while i < bs.len()
                invariant
                    bs@ == line.spec_bytes(),
                    i <= bs@.len(),
                    v@.len() == i,
                    forall|j: int| 0 <= j < i ==> (#[trigger] v@[j])@ == dec_of(bs@[j] as nat),
                decreases bs@.len() - i,
            {
                v.push(usize_to_string(bs[i] as usize));
                i += 1;
            }
            items = v;
            d = None;
        },
        EntryType::Char => {
            let n = line.unicode_len();
            let mut v: Vec<String> = Vec::new();
            let mut i: usize = 0;
            while i < n
                invariant
                    n == line@.len(),
                    i <= n,
                    v@.len() == i,
                    forall|j: int| 0 <= j < i ==> (#[trigger] v@[j])@ == seq![line@[j]],
                decreases n - i,
            {
                let piece = String::from_str(line.substring_char(i, i + 1));
                proof {
                    assert(line@.subrange(i as int, i as int + 1) =~= seq![line@[i as int]]);
                }
                v.push(piece);
                i += 1;
            }
            items = v;
            d = None;
        },
        EntryType::Field => {
            items = split_fields(line, delim);
            d = Some(delim);
        },
    }
    let ghost item_texts = match entry_type {
        EntryType::Byte => line.spec_bytes().map_values(|b: u8| dec_of(b as nat)),
        EntryType::Char => line@.map_values(|c: char| seq![c]),
        EntryType::Field => split_on(line@, delim),
    };
    proof {
        assert(items@.map_values(|t: String| t@) =~= item_texts);
        assert(items@.len() == item_texts.len());
    }
    let r = join_selected(&items, indices, d);
    proof {
        let kept = kept_of(indices@, items@.len() as int);
        assert forall|i: int| 0 <= i < kept.len() implies (kept[i] as int) < items@.len() by {
            indices@.lemma_filter_pred(|i: usize| (i as int) < items@.len() as int, i);
        }
        assert(picked_texts(items@, kept) =~= kept.map_values(|i: usize| item_texts[i as int]));
    }
    r
}

} // verus!
