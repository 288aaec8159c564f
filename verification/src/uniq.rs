//! uniq-style grouping: when two lines count as the same under a
//! comparison policy, runs of same lines, and what each run prints.

use vstd::prelude::*;
use vstd::string::StrSliceExecFns;
use vstd::string::StringExecFns;
use crate::render::dec_of;
use crate::render::usize_to_string;

verus! {

/// The transforms applied to a line before comparing: keep only the first
/// `check_chars` characters, then drop the first `skip_chars`, then fold
/// case. Out-of-range bounds are clamped, never an error.
#[derive(Debug, Clone, Copy)]
pub struct ComparisonPolicy {
    pub check_chars: Option<usize>,
    pub skip_chars: Option<usize>,
    pub ignore_case: bool,
}

/// What `str::to_lowercase` returns for a given sequence of characters;
/// the result depends on the characters alone.
pub uninterp spec fn lower_of(s: Seq<char>) -> Seq<char>;

/// Relies on `str::to_lowercase`: the result is a function of the input's
/// characters alone.
#[verifier::external_body]
fn lowercase(s: &str) -> (r: String)
    ensures
        r@ == lower_of(s@),
{
    s.to_lowercase()
}

/// Where truncation ends: `check_chars` clamped to the line's length.
pub open spec fn trim_end(s: Seq<char>, p: ComparisonPolicy) -> int {
    match p.check_chars {
        Some(w) => if w as int <= s.len() {
            w as int
        } else {
            s.len() as int
        },
        None => s.len() as int,
    }
}

/// Where the kept part starts: `skip_chars` clamped to what truncation left.
pub open spec fn trim_start(s: Seq<char>, p: ComparisonPolicy) -> int {
    match p.skip_chars {
        Some(k) => if k as int <= trim_end(s, p) {
            k as int
        } else {
            trim_end(s, p)
        },
        None => 0,
    }
}

/// The text a line is compared by: truncated, then skipped, then folded.
pub open spec fn transformed(s: Seq<char>, p: ComparisonPolicy) -> Seq<char> {
    let core = s.subrange(trim_start(s, p), trim_end(s, p));
    if p.ignore_case {
        lower_of(core)
    } else {
        core
    }
}

/// Two lines are the same for grouping purposes exactly when their
/// transformed texts are equal.
pub open spec fn same_under(a: Seq<char>, b: Seq<char>, p: ComparisonPolicy) -> bool {
    transformed(a, p) == transformed(b, p)
}

/// Apply the policy's transforms to one line.
fn transform(s: &str, p: &ComparisonPolicy) -> (r: String)
    ensures
        r@ == transformed(s@, *p),
{
    let n = s.unicode_len();
    let end = match p.check_chars {
        Some(w) => if w <= n {
            w
        } else {
            n
        },
        None => n,
    };
    let start = match p.skip_chars {
        Some(k) => if k <= end {
            k
        } else {
            end
        },
        None => 0,
    };
    let core = s.substring_char(start, end);
    if p.ignore_case {
        lowercase(core)
    } else {
        String::from_str(core)
    }
}

/// Are `a` and `b` the same line under the policy?
pub fn lines_equal(a: &str, b: &str, policy: &ComparisonPolicy) -> (r: bool)
    ensures
        r == same_under(a@, b@, *policy),
{
    let ta = transform(a, policy);
    let tb = transform(b, policy);
    ta == tb
}

/// The runs of same lines, oldest first: each run's length paired with its
/// first line. A line joins the latest run when it is the same (under the
/// policy) as that run's first line.
pub open spec fn line_groups(ls: Seq<Seq<char>>, p: ComparisonPolicy) -> Seq<(nat, Seq<char>)>
    decreases ls.len(),
{
    if ls.len() == 0 {
        Seq::<(nat, Seq<char>)>::empty()
    } else {
        let rest = line_groups(ls.drop_last(), p);
        if rest.len() > 0 && same_under(ls.last(), rest.last().1, p) {
            rest.update(rest.len() - 1, ((rest.last().0 + 1) as nat, rest.last().1))
        } else {
            rest.push((1nat, ls.last()))
        }
    }
}

/// Group consecutive same lines: each group is its length and its first
/// line, in input order.
pub fn group_lines(lines: &Vec<String>, policy: &ComparisonPolicy) -> (r: Vec<(usize, String)>)
    ensures
        r@.map_values(|g: (usize, String)| (g.0 as nat, g.1@)) == line_groups(
            lines@.map_values(|l: String| l@),
            *policy,
        ),
{
    let ghost ls = lines@.map_values(|l: String| l@);
    let ghost f = |g: (usize, String)| (g.0 as nat, g.1@);
    let mut out: Vec<(usize, String)> = Vec::new();
    if lines.len() == 0 {
        proof {
            assert(out@.map_values(f) =~= line_groups(ls, *policy));
        }
        return out;
    }
    let mut rep: String = lines[0].clone();
    let mut count: usize = 1;
    let mut i: usize = 1;
    proof {
        assert(ls.take(1).drop_last() =~= Seq::<Seq<char>>::empty());
        assert(ls.take(1).last() == ls[0]);
        assert(line_groups(Seq::<Seq<char>>::empty(), *policy)
            == Seq::<(nat, Seq<char>)>::empty());
        assert(rep@ == ls[0]);
        assert(line_groups(ls.take(1), *policy) =~= Seq::<(nat, Seq<char>)>::empty().push(
            (1nat, ls[0]),
        ));
        assert(out@.map_values(f).push((count as nat, rep@)) =~= line_groups(
            ls.take(1),
            *policy,
        ));
    }
    while i < lines.len()
        invariant
            ls == lines@.map_values(|l: String| l@),
            f == (|g: (usize, String)| (g.0 as nat, g.1@)),
            1 <= i <= ls.len(),
            ls.len() == lines@.len(),
            count <= i,
            out@.map_values(f).push((count as nat, rep@)) == line_groups(
                ls.take(i as int),
                *policy,
            ),
        decreases ls.len() - i,
    {
        let ghost rest = line_groups(ls.take(i as int), *policy);
        proof {
            assert(ls.take(i as int + 1).drop_last() =~= ls.take(i as int));
            assert(ls.take(i as int + 1).last() == ls[i as int]);
            assert(rest.last() == (count as nat, rep@));
        }
        if lines_equal(lines[i].as_str(), rep.as_str(), policy) {
            count += 1;
            proof {
                assert(out@.map_values(f).push((count as nat, rep@)) =~= rest.update(
                    rest.len() - 1,
                    ((rest.last().0 + 1) as nat, rest.last().1),
                ));
            }
        } else {
            let ghost prev = out@.map_values(f);
            out.push((count, rep));
            rep = lines[i].clone();
            count = 1;
            proof {
                assert(out@.map_values(f) =~= prev.push(rest.last()));
                assert(out@.map_values(f).push((count as nat, rep@)) =~= rest.push(
                    (1nat, ls[i as int]),
                ));
            }
        }
        i += 1;
    }
    proof {
        assert(ls.take(ls.len() as int) =~= ls);
    }
    let ghost prev = out@.map_values(f);
    out.push((count, rep));
    proof {
        assert(out@.map_values(f) =~= prev.push((count as nat, rep@)));
    }
    out
}

/// What a run prints, if anything: with both `repeated` and `unique` the
/// run always prints; with `repeated` alone only runs longer than one;
/// with `unique` alone only runs of exactly one; with neither, nothing.
/// `with_count` prefixes the run's length and a space. A newline ends
/// every printed record.
pub open spec fn group_record(
    count: nat,
    line: Seq<char>,
    repeated: bool,
    unique: bool,
    with_count: bool,
) -> Option<Seq<char>> {
    let show = (repeated && unique) || (repeated && !unique && count > 1) || (!repeated && unique
        && count <= 1);
    if show {
        if with_count {
            Some(dec_of(count) + seq![' '] + line + seq!['\n'])
        } else {
            Some(line + seq!['\n'])
        }
    } else {
        None
    }
}

/// Render one run of `count` same lines, represented by its first line.
pub fn format_group(
    count: usize,
    line: &str,
    repeated: bool,
    unique: bool,
    with_count: bool,
) -> (r: Option<String>)
    ensures
        r is Some <==> group_record(count as nat, line@, repeated, unique, with_count) is Some,
        r matches Some(s) ==> group_record(count as nat, line@, repeated, unique, with_count)
            == Some(s@),
{
    let show = (repeated && unique) || (repeated && !unique && count > 1) || (!repeated && unique
        && count <= 1);
    if !show {
        return None;
    }
    let mut acc: String;
    if with_count {
        acc = usize_to_string(count);
        acc.append(" ");
        proof {
            reveal_strlit(" ");
            assert(" "@ =~= seq![' ']);
        }
    } else {
        acc = String::new();
    }
    acc.append(line);
    acc.append("\n");
    proof {
        reveal_strlit("\n");
        assert("\n"@ =~= seq!['\n']);
        if with_count {
            assert(acc@ =~= dec_of(count as nat) + seq![' '] + line@ + seq!['\n']);
        } else {
            assert(acc@ =~= line@ + seq!['\n']);
        }
    }
    Some(acc)
}

} // verus!
