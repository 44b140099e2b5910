//! Building request facts from raw request parts.
//!
//! Framework adapters hand over the matched route, the method, the raw
//! query string and the body; the helpers here turn the textual parts
//! into the neutral facts bundle the pipeline consumes.

use vstd::prelude::*;
use vstd::string::{StrSliceExecFns, StringExecFns};
use crate::formats::{split_at_char, split_str};

verus! {

broadcast use vstd::std_specs::vec::group_vec_axioms, vstd::seq::group_seq_axioms;

/// The key/value pairs a raw query string spells: pieces between `&`,
/// each split at its first `=`; a piece without `=` carries no pair.
pub open spec fn spec_query_pairs_of(pieces: Seq<Seq<char>>) -> Seq<(Seq<char>, Seq<char>)>
    decreases pieces.len(),
{
    if pieces.len() == 0 {
        Seq::empty()
    } else {
        let halves = split_at_char(pieces[0], '=');
        (if halves.len() >= 2 {
            seq![(halves[0], halves[1])]
        } else {
            Seq::empty()
        }) + spec_query_pairs_of(pieces.drop_first())
    }
}

/// The pairs of a raw query string.
pub open spec fn spec_parse_query(qs: Seq<char>) -> Seq<(Seq<char>, Seq<char>)> {
    spec_query_pairs_of(split_at_char(qs, '&'))
}

proof fn lemma_query_pairs_push(pieces: Seq<Seq<char>>, x: Seq<char>)
    ensures
        spec_query_pairs_of(pieces.push(x)) == spec_query_pairs_of(pieces) + ({
            let halves = split_at_char(x, '=');
            if halves.len() >= 2 {
                seq![(halves[0], halves[1])]
            } else {
                Seq::<(Seq<char>, Seq<char>)>::empty()
            }
        }),
    decreases pieces.len(),
{
    reveal_with_fuel(spec_query_pairs_of, 3);
    if pieces.len() == 0 {
        assert(pieces.push(x)[0] == x);
        assert(pieces.push(x).drop_first() =~= Seq::empty());
        assert(spec_query_pairs_of(pieces.push(x)) =~= spec_query_pairs_of(pieces) + ({
            let halves = split_at_char(x, '=');
            if halves.len() >= 2 {
                seq![(halves[0], halves[1])]
            } else {
                Seq::<(Seq<char>, Seq<char>)>::empty()
            }
        }));
    } else {
        lemma_query_pairs_push(pieces.drop_first(), x);
        assert(pieces.push(x)[0] == pieces[0]);
        assert(pieces.push(x).drop_first() =~= pieces.drop_first().push(x));
        assert(spec_query_pairs_of(pieces.push(x)) =~= spec_query_pairs_of(pieces) + ({
            let halves = split_at_char(x, '=');
            if halves.len() >= 2 {
                seq![(halves[0], halves[1])]
            } else {
                Seq::<(Seq<char>, Seq<char>)>::empty()
            }
        }));
    }
}

/// Parses a raw query string into key/value pairs.
pub fn parse_query_pairs(qs: &str) -> (r: Vec<(String, String)>)
    ensures
        r@.len() == spec_parse_query(qs@).len(),
        forall|i: int| 0 <= i < r@.len() ==> ((#[trigger] r@[i]).0@, r@[i].1@) == spec_parse_query(
            qs@,
        )[i],
{
    let pieces = split_str(qs, '&');
    let ghost sp = split_at_char(qs@, '&');
    let mut out: Vec<(String, String)> = Vec::new();
    let n = pieces.len();
    let mut j: usize = 0;
    proof {
        assert(spec_query_pairs_of(sp.subrange(0, 0)) =~= Seq::<(Seq<char>, Seq<char>)>::empty());
    }
    while j < n
        invariant
            0 <= j <= n,
            n == pieces@.len(),
            n == sp.len(),
            forall|k: int| 0 <= k < n ==> (#[trigger] pieces@[k])@ == sp[k],
            out@.len() == spec_query_pairs_of(sp.subrange(0, j as int)).len(),
            forall|i: int| 0 <= i < out@.len() ==> ((#[trigger] out@[i]).0@, out@[i].1@)
                == spec_query_pairs_of(sp.subrange(0, j as int))[i],
        decreases n - j,
    {
        proof {
            lemma_query_pairs_push(sp.subrange(0, j as int), sp[j as int]);
            assert(sp.subrange(0, j + 1 as int) =~= sp.subrange(0, j as int).push(sp[j as int]));
        }
        let halves = split_str(pieces[j].as_str(), '=');
        if halves.len() >= 2 {
            let key = halves[0].clone();
            let val = halves[1].clone();
            out.push((key, val));
        }
        j = j + 1;
    }
    proof {
        assert(sp.subrange(0, n as int) =~= sp);
    }
    out
}

/// The last non-empty piece of a path split at `/`, if any.
pub open spec fn spec_last_nonempty(pieces: Seq<Seq<char>>) -> Option<Seq<char>>
    decreases pieces.len(),
{
    if pieces.len() == 0 {
        Option::None
    } else if pieces.last().len() > 0 {
        Option::Some(pieces.last())
    } else {
        spec_last_nonempty(pieces.drop_last())
    }
}

/// The final non-empty segment of a request path.
pub open spec fn spec_last_segment_of_path(p: Seq<char>) -> Option<Seq<char>> {
    spec_last_nonempty(split_at_char(p, '/'))
}

/// Extracts the final non-empty segment of a request path.
pub fn last_nonempty_segment(p: &str) -> (r: Option<String>)
    ensures
        match r {
            Option::Some(s) => spec_last_segment_of_path(p@) == Option::Some(s@),
            Option::None => spec_last_segment_of_path(p@) is None,
        },
{
    let pieces = split_str(p, '/');
    let ghost sp = split_at_char(p@, '/');
    let n = pieces.len();
    proof {
        assert(sp.subrange(0, n as int) =~= sp);
    }
    let mut j: usize = n;
    while j > 0
        invariant
            0 <= j <= n,
            n == pieces@.len(),
            n == sp.len(),
            forall|k: int| 0 <= k < n ==> (#[trigger] pieces@[k])@ == sp[k],
            spec_last_nonempty(sp) == spec_last_nonempty(sp.subrange(0, j as int)),
        decreases j,
    {
        proof {
            let cur = sp.subrange(0, j as int);
            assert(cur.last() == sp[j - 1]);
            assert(cur.drop_last() =~= sp.subrange(0, j - 1));
        }
        if !pieces[j - 1].as_str().is_empty() {
            return Option::Some(pieces[j - 1].clone());
        }
        j = j - 1;
    }
    proof {
        assert(sp.subrange(0, 0) =~= Seq::<Seq<char>>::empty());
    }
    Option::None
}

} // verus!
