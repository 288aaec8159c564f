//! echo: the given words joined by single spaces, with or without a
//! trailing newline.

use vstd::prelude::*;
use vstd::string::StrSliceExecFns;
use vstd::string::StringExecFns;
use crate::cut::join_with;
use crate::cut::lemma_join_push;
use crate::cut::sep_text;

verus! {

/// The words joined by single spaces; a newline follows unless suppressed.
pub fn echo_line(words: &Vec<String>, omit_newline: bool) -> (r: String)
    ensures
        r@ == join_with(words@.map_values(|w: String| w@), Some(' ')) + if omit_newline {
            Seq::<char>::empty()
        } else {
            seq!['\n']
        },
{
    let ghost ws = words@.map_values(|w: String| w@);
    let mut out = String::new();
    let mut i: usize = 0;
    proof {
        assert(ws.take(0) =~= Seq::<Seq<char>>::empty());
        assert(out@ =~= join_with(ws.take(0), Some(' ')));
    }
    while i < words.len()
        invariant
            ws == words@.map_values(|w: String| w@),
            ws.len() == words@.len(),
            i <= ws.len(),
            out@ == join_with(ws.take(i as int), Some(' ')),
        decreases ws.len() - i,
    {
        if i > 0 {
            out.append(" ");
        }
        out.append(words[i].as_str());
        proof {
            reveal_strlit(" ");
            assert(" "@ =~= seq![' ']);
            assert(ws.take(i as int + 1) =~= ws.take(i as int).push(ws[i as int]));
            if i > 0 {
                lemma_join_push(ws.take(i as int), ws[i as int], Some(' '));
                assert(out@ =~= join_with(ws.take(i as int), Some(' ')) + sep_text(Some(' '))
                    + ws[i as int]);
            } else {
                assert(ws.take(1) =~= seq![ws[0]]);
                assert(out@ =~= ws[0]);
            }
        }
        i += 1;
    }
    proof {
        assert(ws.take(ws.len() as int) =~= ws);
    }
    if !omit_newline {
        out.append("\n");
        proof {
            reveal_strlit("\n");
            assert("\n"@ =~= seq!['\n']);
        }
    }
    proof {
        if omit_newline {
            assert(out@ =~= join_with(ws, Some(' ')) + Seq::<char>::empty());
        }
    }
    out
}

} // verus!
