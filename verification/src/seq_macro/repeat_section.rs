use vstd::prelude::*;
use crate::token::{visible, TokenTree, Tree, trees_view, lemma_trees_view_add};
use crate::seq_macro::expand::{
    expand_n_v3, expand_v3_trees, expand_v3_repeat, detect_partial_repeat, has_partial_repeat,
    v3_pastes_ok, repeat_pastes_ok, check_v3_pastes, check_repeat_pastes,
};
use crate::seq_macro::input::{SeqInput, SeqError, SeqErrorView, seq_result_view, bound_error_i32, Bound, START_BOUND_AT, end_bound_at, end_bound_index, lemma_parsed_bounds, parse_seq_input, bound_i32, base10_i32};

verus! {

/// What `seq!` with repeated sections makes of the bounds' values and the body: an error when
/// the range is empty; the body expanded once (for the value 0) when it holds `#(...)*`; else
/// the body expanded once per value of the range.
pub open spec fn seq_from_bounds(start: i32, end: i32, body: Seq<Tree>) -> Result<Seq<Tree>, SeqErrorView<i32>> {
    if start >= end {
        Err(SeqErrorView::EmptyRange(start, end, START_BOUND_AT))
    } else if has_partial_repeat(body) {
        Ok(expand_v3_trees(body, start as int, end as int, 0))
    } else {
        Ok(expand_v3_repeat(body, start as int, end as int, start as int))
    }
}

/// Whether every paste `x ~ N` that the expansion performs yields an identifier.
pub open spec fn bounds_pastes_ok(start: i32, end: i32, body: Seq<Tree>) -> bool {
    start < end ==> if has_partial_repeat(body) {
        v3_pastes_ok(body, start as int, end as int, 0)
    } else {
        repeat_pastes_ok(body, start as int, end as int, start as int)
    }
}

/// What `seq!` with repeated sections makes of its input tokens.
pub open spec fn seq_output(s: Seq<Tree>) -> Result<Seq<Tree>, SeqErrorView<i32>> {
    match parse_seq_input(visible(s)) {
        Err(e) => Err(SeqErrorView::Parse(e)),
        Ok(si) => match bound_i32(si.start) {
            None => Err(SeqErrorView::IntValue(Bound::Start, START_BOUND_AT, bound_error_i32(si.start))),
            Some(a) => match bound_i32(si.end) {
                None => Err(SeqErrorView::IntValue(Bound::End, end_bound_at(visible(s)) as usize, bound_error_i32(si.end))),
                Some(b) => seq_from_bounds(a, b, si.body),
            },
        },
    }
}

/// Whether the pastes of the expansion of an input all yield identifiers.
pub open spec fn input_pastes_ok(s: Seq<Tree>) -> bool {
    match parse_seq_input(visible(s)) {
        Err(_) => true,
        Ok(si) => match (bound_i32(si.start), bound_i32(si.end)) {
            (Some(a), Some(b)) => bounds_pastes_ok(a, b, si.body),
            _ => true,
        },
    }
}

/// The expansion once the bounds are known, as `seq_from_bounds` states.
pub fn seq_expand(start_v: i32, end_v: i32, brace_in: &Vec<TokenTree>) -> (res: Result<Vec<TokenTree>, SeqError<i32>>)
    requires
        bounds_pastes_ok(start_v, end_v, trees_view(brace_in@)),
    ensures
        seq_result_view(res) == seq_from_bounds(start_v, end_v, trees_view(brace_in@)),
{
    if start_v >= end_v {
        return Err(SeqError::EmptyRange(start_v, end_v, START_BOUND_AT));
    }
    let ghost body = trees_view(brace_in@);
    if detect_partial_repeat(brace_in) {
        let expanded = expand_n_v3(brace_in, start_v, end_v, 0);
        return Ok(expanded);
    }
    let mut expanded: Vec<TokenTree> = Vec::new();
    let mut i: i32 = start_v;
    proof {
        assert(trees_view(expanded@) =~= Seq::<Tree>::empty());
    }
    while i < end_v
        invariant
            body == trees_view(brace_in@),
            start_v < end_v,
            expand_v3_repeat(body, start_v as int, end_v as int, start_v as int)
                == trees_view(expanded@) + expand_v3_repeat(body, start_v as int, end_v as int, i as int),
            repeat_pastes_ok(body, start_v as int, end_v as int, i as int),
        decreases end_v - i,
    {
        let mut part = expand_n_v3(brace_in, start_v, end_v, i);
        let ghost old_e = expanded@;
        let ghost pv = trees_view(part@);
        proof {
            lemma_trees_view_add(expanded@, part@);
        }
        expanded.append(&mut part);
        i = i + 1;
        proof {
            assert(trees_view(old_e) + pv + expand_v3_repeat(body, start_v as int, end_v as int, i as int)
                =~= trees_view(old_e) + (pv + expand_v3_repeat(body, start_v as int, end_v as int, i as int)));
        }
    }
    proof {
        assert(expand_v3_repeat(body, start_v as int, end_v as int, i as int) =~= Seq::<Tree>::empty());
        assert(trees_view(expanded@) + Seq::<Tree>::empty() =~= trees_view(expanded@));
    }
    Ok(expanded)
}

/// `seq!(N in a..b { body })` with repeated sections: see `seq_output`. The input must not ask
/// for a paste `x ~ N` that yields no identifier (the expansion panics there).
pub fn seq(input: &Vec<TokenTree>) -> (res: Result<Vec<TokenTree>, SeqError<i32>>)
    requires
        input_pastes_ok(trees_view(input@)),
    ensures
        seq_result_view(res) == seq_output(trees_view(input@)),
{
    let si = match SeqInput::parse(input) {
        Ok(si) => si,
        Err(e) => return Err(SeqError::Parse(e)),
    };
    let start_v = match base10_i32(&si.start) {
        Ok(v) => v,
        Err(m) => return Err(SeqError::IntValue(Bound::Start, START_BOUND_AT, m)),
    };
    let end_v = match base10_i32(&si.end) {
        Ok(v) => v,
        Err(m) => {
            proof {
                lemma_parsed_bounds(visible(trees_view(input@)));
            }
            return Err(SeqError::IntValue(Bound::End, end_bound_index(input), m));
        },
    };
    seq_expand(start_v, end_v, &si.brace_in)
}


/// Whether the pastes of the expansion yield identifiers, once the bounds are known.
fn check_bounds_pastes(start_v: i32, end_v: i32, brace_in: &Vec<TokenTree>) -> (b: bool)
    ensures
        b == bounds_pastes_ok(start_v, end_v, trees_view(brace_in@)),
{
    if start_v >= end_v {
        true
    } else if detect_partial_repeat(brace_in) {
        check_v3_pastes(brace_in, start_v, end_v, 0)
    } else {
        check_repeat_pastes(brace_in, start_v, end_v)
    }
}

/// `seq` on any input: `None` where the expansion would ask for a paste `x ~ N` that yields
/// no identifier (there the macro panics), else `Some` of what `seq` returns.
pub fn seq_checked(input: &Vec<TokenTree>) -> (res: Option<Result<Vec<TokenTree>, SeqError<i32>>>)
    ensures
        res is None <==> !input_pastes_ok(trees_view(input@)),
        res matches Some(r) ==> seq_result_view(r) == seq_output(trees_view(input@)),
{
    let si = match SeqInput::parse(input) {
        Ok(si) => si,
        Err(_) => return Some(seq(input)),
    };
    let start_v = match base10_i32(&si.start) {
        Ok(v) => v,
        Err(_) => return Some(seq(input)),
    };
    let end_v = match base10_i32(&si.end) {
        Ok(v) => v,
        Err(_) => return Some(seq(input)),
    };
    if check_bounds_pastes(start_v, end_v, &si.brace_in) {
        Some(seq(input))
    } else {
        None
    }
}

} // verus!
