//! The reducer over a path of integers: the segments are folded with
//! exclusive or, and the result is raised to the third power.

use vstd::prelude::*;
use crate::status::BAD_REQUEST;
use crate::text::{
    chars_of, lemma_split_nonempty, parse_i64, parse_i64_in, piece_bounds, signed_decimal,
    signed_decimal_string, split,
};

verus! {

/// The smallest integer whose cube is a 64-bit signed integer.
pub const CUBE_ROOT_MIN: i64 = -2097152;

/// The largest integer whose cube is a 64-bit signed integer.
pub const CUBE_ROOT_MAX: i64 = 2097151;

/// The integers that the segments of a path write, in their order; `None`
/// where a segment is not the numeral of a 64-bit signed integer.
pub open spec fn segment_values(path: Seq<char>) -> Option<Seq<i64>> {
    let pieces = split(path, '/');
    if forall|k: int| 0 <= k < pieces.len() ==> parse_i64(#[trigger] pieces[k]) is Some {
        Some(Seq::new(pieces.len(), |k: int| parse_i64(pieces[k])->0))
    } else {
        None
    }
}

/// The first integer, combined with each further one by exclusive or.
pub open spec fn xor_fold(values: Seq<i64>) -> i64
    decreases values.len(),
{
    if values.len() == 0 {
        0
    } else if values.len() == 1 {
        values[0]
    } else {
        xor_fold(values.drop_last()) ^ values.last()
    }
}

/// The third power.
pub open spec fn cube(value: int) -> int {
    value * value * value
}

/// What a path folds to; `None` where it is turned down.
pub open spec fn path_fold(path: Seq<char>) -> Option<i64> {
    match segment_values(path) {
        Some(values) => Some(xor_fold(values)),
        None => None,
    }
}

/// The cube of an integer is a 64-bit signed integer exactly if the integer
/// lies between `CUBE_ROOT_MIN` and `CUBE_ROOT_MAX`.
pub proof fn lemma_cube_range(value: int)
    ensures
        (i64::MIN <= cube(value) <= i64::MAX) <==> (CUBE_ROOT_MIN <= value <= CUBE_ROOT_MAX),
{
    if value > 2097151 {
        assert(value * value * value >= 2097152 * 2097152 * 2097152) by (nonlinear_arith)
            requires
                value >= 2097152,
        ;
    } else if value < -2097152 {
        assert(value * value * value <= -2097153 * 2097153 * 2097153) by (nonlinear_arith)
            requires
                value <= -2097153,
        ;
    } else {
        assert(-2097152 * 2097152 * 2097152 <= value * value * value <= 2097151 * 2097151
            * 2097151) by (nonlinear_arith)
            requires
                -2097152 <= value <= 2097151,
        ;
    }
}

/// Folds the segments of a path, which `/` separates, with exclusive or.
/// A segment that is not the numeral of a 64-bit signed integer turns the
/// path down.
pub fn fold_path(path: &str) -> (folded: Result<i64, u16>)
    ensures
        match path_fold(path@) {
            Some(value) => folded == Ok::<i64, u16>(value),
            None => folded == Err::<i64, u16>(BAD_REQUEST),
        },
{
    let chars = chars_of(path);
    let bounds = piece_bounds(&chars, '/');
    let ghost pieces = split(path@, '/');
    proof {
        lemma_split_nonempty(path@, '/');
    }
    let mut values: Vec<i64> = Vec::new();
    let mut index: usize = 0;
    while index < bounds.len()
        invariant
            index <= bounds.len(),
            chars@ == path@,
            pieces == split(path@, '/'),
            bounds.len() == pieces.len(),
            forall|k: int|
                0 <= k < bounds.len() ==> {
                    &&& (#[trigger] bounds[k]).0 <= bounds[k].1 <= chars.len()
                    &&& chars@.subrange(bounds[k].0 as int, bounds[k].1 as int) == pieces[k]
                },
            values.len() == index,
            forall|k: int|
                0 <= k < index ==> parse_i64(#[trigger] pieces[k]) == Some(values[k]),
        decreases bounds.len() - index,
    {
        let bound = bounds[index];
        match parse_i64_in(&chars, bound.0, bound.1) {
            Some(value) => {
                values.push(value);
            },
            None => {
                return Err(BAD_REQUEST);
            },
        }
        index += 1;
    }
    assert(segment_values(path@) == Some(values@));
    let mut folded: i64 = values[0];
    let mut next: usize = 1;
    while next < values.len()
        invariant
            1 <= next <= values.len(),
            folded == xor_fold(values@.take(next as int)),
        decreases values.len() - next,
    {
        assert(values@.take(next as int + 1).drop_last() =~= values@.take(next as int));
        folded = folded ^ values[next];
        next += 1;
    }
    assert(values@.take(values.len() as int) =~= values@);
    Ok(folded)
}

/// Whether the cube of `value` is a 64-bit signed integer.
pub fn cube_fits(value: i64) -> (fits: bool)
    ensures
        fits == (i64::MIN <= cube(value as int) <= i64::MAX),
{
    proof {
        lemma_cube_range(value as int);
    }
    CUBE_ROOT_MIN <= value && value <= CUBE_ROOT_MAX
}

/// The decimal numeral of the cube of `value`.
pub fn cube_text(value: i64) -> (text: String)
    requires
        i64::MIN <= cube(value as int) <= i64::MAX,
    ensures
        text@ == signed_decimal(cube(value as int)),
{
    proof {
        lemma_cube_range(value as int);
        assert(0 <= value * value <= 2097152 * 2097152) by (nonlinear_arith)
            requires
                -2097152 <= value <= 2097151,
        ;
    }
    let square: i64 = value * value;
    signed_decimal_string(square * value)
}

/// Answers a path of integers with the cube of their exclusive-or fold, or
/// turns the path down where a segment is no integer.
pub fn nums(path: String) -> (answer: Result<String, u16>)
    requires
        path_fold(path@) matches Some(value) ==> i64::MIN <= cube(value as int) <= i64::MAX,
    ensures
        match path_fold(path@) {
            Some(value) => answer matches Ok(text) && text@ == signed_decimal(cube(value as int)),
            None => answer == Err::<String, u16>(BAD_REQUEST),
        },
{
    match fold_path(path.as_str()) {
        Ok(value) => Ok(cube_text(value)),
        Err(status) => Err(status),
    }
}

/// Answers a path as `nums` does wherever the cube is a 64-bit signed
/// integer, and with `None` where it is not.
pub fn checked_nums(path: String) -> (answer: Option<Result<String, u16>>)
    ensures
        match path_fold(path@) {
            Some(value) => if i64::MIN <= cube(value as int) <= i64::MAX {
                answer matches Some(Ok(text)) && text@ == signed_decimal(cube(value as int))
            } else {
                answer is None
            },
            None => answer == Some(Err::<String, u16>(BAD_REQUEST)),
        },
{
    match fold_path(path.as_str()) {
        Ok(value) if !cube_fits(value) => None,
        _ => Some(nums(path)),
    }
}

} // verus!
