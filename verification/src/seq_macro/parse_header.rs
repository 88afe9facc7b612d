use vstd::prelude::*;
use crate::token::{visible, TokenTree, Tree, trees_view};
use crate::seq_macro::input::{SeqInput, SeqError, SeqErrorView, seq_result_view, bound_error_u64, Bound, START_BOUND_AT, end_bound_at, end_bound_index, lemma_parsed_bounds, parse_seq_header, bound_u64, base10_u64};

verus! {

/// What the header-only `seq!` makes of the bounds' values: an error when the range is empty,
/// else nothing.
pub open spec fn header_from_bounds(start: u64, end: u64) -> Result<Seq<Tree>, SeqErrorView<u64>> {
    if start >= end {
        Err(SeqErrorView::EmptyRange(start, end, START_BOUND_AT))
    } else {
        Ok(Seq::empty())
    }
}

/// What the header-only `seq!` makes of its input tokens.
pub open spec fn header_output(s: Seq<Tree>) -> Result<Seq<Tree>, SeqErrorView<u64>> {
    match parse_seq_header(visible(s)) {
        Err(e) => Err(SeqErrorView::Parse(e)),
        Ok(si) => match bound_u64(si.start) {
            None => Err(SeqErrorView::IntValue(Bound::Start, START_BOUND_AT, bound_error_u64(si.start))),
            Some(a) => match bound_u64(si.end) {
                None => Err(SeqErrorView::IntValue(Bound::End, end_bound_at(visible(s)) as usize, bound_error_u64(si.end))),
                Some(b) => header_from_bounds(a, b),
            },
        },
    }
}

/// The outcome once the bounds are known: an error when the range is empty, else no tokens.
pub fn seq_check_bounds(start_v: u64, end_v: u64) -> (res: Result<Vec<TokenTree>, SeqError<u64>>)
    ensures
        seq_result_view(res) == header_from_bounds(start_v, end_v),
{
    if start_v >= end_v {
        return Err(SeqError::EmptyRange(start_v, end_v, START_BOUND_AT));
    }
    let expanded: Vec<TokenTree> = Vec::new();
    assert(trees_view(expanded@) =~= Seq::<Tree>::empty());
    Ok(expanded)
}

/// `seq!(N in a..b {})` with the header parsed and checked: no tokens when the input parses,
/// both bounds fit in `u64` and `a < b`; a compile error otherwise.
pub fn seq(input: &Vec<TokenTree>) -> (res: Result<Vec<TokenTree>, SeqError<u64>>)
    ensures
        seq_result_view(res) == header_output(trees_view(input@)),
{
    let si = match SeqInput::parse_header(input) {
        Ok(si) => si,
        Err(e) => return Err(SeqError::Parse(e)),
    };
    let start_v = match base10_u64(&si.start) {
        Ok(v) => v,
        Err(m) => return Err(SeqError::IntValue(Bound::Start, START_BOUND_AT, m)),
    };
    let end_v = match base10_u64(&si.end) {
        Ok(v) => v,
        Err(m) => {
            proof {
                lemma_parsed_bounds(visible(trees_view(input@)));
            }
            return Err(SeqError::IntValue(Bound::End, end_bound_index(input), m));
        },
    };
    seq_check_bounds(start_v, end_v)
}

} // verus!
