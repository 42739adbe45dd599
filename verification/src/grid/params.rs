//! Parameters of control sequences.
use vstd::prelude::*;

verus! {

/// The views of parameter groups: each holds a parameter and its
/// sub-parameters.
pub open spec fn groups(params: Seq<Vec<u16>>) -> Seq<Seq<u16>> {
    Seq::new(params.len(), |i: int| params[i]@)
}

/// The first value of group `i`; `default` where there is none.
pub open spec fn value_or(params: Seq<Seq<u16>>, i: int, default: u16) -> u16 {
    if 0 <= i < params.len() && params[i].len() > 0 {
        params[i][0]
    } else {
        default
    }
}

/// The first value of group `i`, 0 for an empty group; `default` where the
/// group is missing.
pub open spec fn group_or(params: Seq<Seq<u16>>, i: int, default: u16) -> u16 {
    if 0 <= i < params.len() {
        value_or(params, i, 0)
    } else {
        default
    }
}

/// The first value of group `i`; `default` where there is none.
pub fn param_or(params: &Vec<Vec<u16>>, i: usize, default: u16) -> (r: u16)
    ensures
        r == value_or(groups(params@), i as int, default),
{
    if i < params.len() && params[i].len() > 0 {
        params[i][0]
    } else {
        default
    }
}

/// The first value of group `i`, 0 for an empty group; `default` where the
/// group is missing.
pub fn field_or(params: &Vec<Vec<u16>>, i: usize, default: u16) -> (r: u16)
    ensures
        r == group_or(groups(params@), i as int, default),
{
    if i < params.len() {
        param_or(params, i, 0)
    } else {
        default
    }
}

} // verus!
