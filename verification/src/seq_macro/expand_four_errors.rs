use vstd::prelude::*;
use crate::token::{visible, TokenTree, Tree, trees_view, lemma_trees_view, lemma_trees_view_add, decimal_text};
use crate::seq_macro::expand::{expand_n, expand_n_trees};
use crate::seq_macro::input::{SeqInput, SeqError, SeqErrorView, seq_result_view, bound_error_i32, Bound, START_BOUND_AT, end_bound_at, end_bound_index, lemma_parsed_bounds, parse_seq_input, bound_i32, base10_i32};

verus! {

/// The body expanded with `N` replaced by each value of `i..end`, one copy after the other.
pub open spec fn expand_n_repeat(body: Seq<Tree>, i: int, end: int) -> Seq<Tree>
    decreases end - i,
{
    if i < end {
        expand_n_trees(body, decimal_text(i)) + expand_n_repeat(body, i + 1, end)
    } else {
        Seq::empty()
    }
}

/// What `seq!` makes of the bounds' values and the body: an error when the range is empty,
/// else one copy of the body per value.
pub open spec fn seq_from_bounds(start: i32, end: i32, body: Seq<Tree>) -> Result<Seq<Tree>, SeqErrorView<i32>> {
    if start >= end {
        Err(SeqErrorView::EmptyRange(start, end, START_BOUND_AT))
    } else {
        Ok(expand_n_repeat(body, start as int, end as int))
    }
}

/// What `seq!` makes of its input tokens.
pub open spec fn seq_output(s: Seq<Tree>) -> Result<Seq<Tree>, SeqErrorView<i32>> {
    match parse_seq_input(visible(s)) {
        Err(e) => Err(SeqErrorView::Parse(e)),
        Ok(si) => match bound_i32(si.start) {
            None => Err(SeqErrorView::IntValue(Bound::Start, START_BOUND_AT, bound_error_i32(si.start))),
            Some(a) => match bound_i32(si.end) {
                None => Err(SeqErrorView::IntValue(Bound::End, end_bound_at(visible(s)) as usize, bound_error_i32(si.end))),
                Some(b) => seq_from_bounds(a, b, si.body),
            },
        },
    }
}

/// The expansion once the bounds are known: the body repeated for each value of
/// `start_v..end_v` with `N` replaced by the value.
pub fn seq_expand(start_v: i32, end_v: i32, brace_in: &Vec<TokenTree>) -> (res: Result<Vec<TokenTree>, SeqError<i32>>)
    ensures
        seq_result_view(res) == seq_from_bounds(start_v, end_v, trees_view(brace_in@)),
{
    if start_v >= end_v {
        return Err(SeqError::EmptyRange(start_v, end_v, START_BOUND_AT));
    }
    let ghost body = trees_view(brace_in@);
    let mut expanded: Vec<TokenTree> = Vec::new();
    let mut i: i32 = start_v;
    proof {
        assert(trees_view(expanded@) =~= Seq::<Tree>::empty());
    }
    while i < end_v
        invariant
            body == trees_view(brace_in@),
            expand_n_repeat(body, start_v as int, end_v as int)
                == trees_view(expanded@) + expand_n_repeat(body, i as int, end_v as int),
        decreases end_v - i,
    {
        let mut part = expand_n(brace_in, i);
        let ghost old_e = expanded@;
        let ghost pv = trees_view(part@);
        proof {
            lemma_trees_view_add(expanded@, part@);
        }
        expanded.append(&mut part);
        i = i + 1;
        proof {
            assert(trees_view(old_e) + pv + expand_n_repeat(body, i as int, end_v as int)
                =~= trees_view(old_e) + (pv + expand_n_repeat(body, i as int, end_v as int)));
        }
    }
    proof {
        assert(expand_n_repeat(body, i as int, end_v as int) =~= Seq::<Tree>::empty());
        assert(trees_view(expanded@) + Seq::<Tree>::empty() =~= trees_view(expanded@));
    }
    Ok(expanded)
}

/// `seq!(N in a..b { body })`: the body once per value of `a..b`, with the identifier `N`
/// replaced by the value; a compile error when the input does not parse, a bound does not fit
/// in `i32`, or the range is empty.
pub fn seq(input: &Vec<TokenTree>) -> (res: Result<Vec<TokenTree>, SeqError<i32>>)
    ensures
        seq_result_view(res) == seq_output(trees_view(input@)),
{
    let si = match SeqInput::parse(input) {
        Ok(si) => si,
        Err(e) => return Err(SeqError::Parse(e)),
    };
    let start_v = match base10_i32(&si.start) {
        Ok(v) => v,
        Err(m) => return Err(SeqError::IntValue(Bound::Start, START_BOUND_AT, m)),
    };
    let end_v = match base10_i32(&si.end) {
        Ok(v) => v,
        Err(m) => {
            proof {
                lemma_parsed_bounds(visible(trees_view(input@)));
            }
            return Err(SeqError::IntValue(Bound::End, end_bound_index(input), m));
        },
    };
    seq_expand(start_v, end_v, &si.brace_in)
}

} // verus!
