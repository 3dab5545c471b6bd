use vstd::prelude::*;

use crate::number_text::{
    fixed_text, fixed_to_text, float_quotient_fixed, float_quotient_fixed_exec, int_text, int_to_text,
};

verus! {

#[derive(Clone, Copy, Debug, PartialEq, Eq, Structural)]
pub enum BorderStyle {
    /// No border (not called `None`, which would clash with `Option::None`).
    NoBorder,
    Solid,
    Dotted,
}

/// How a number pill writes `x`: above ten thousand as thousands (`K`),
/// millions (`M`) or billions (`B`) of the value computed in `f32`, with one
/// decimal for the billions and for the millions below ten million, and
/// none otherwise; below that, all of its digits.
pub open spec fn pill_text(x: i64) -> Seq<char> {
    if x > 1_000_000_000 {
        fixed_text(float_quotient_fixed(x as nat, 9, 24, 1), 1).push('B')
    } else if x > 100_000_000 {
        fixed_text(float_quotient_fixed(x as nat, 6, 24, 0), 0).push('M')
    } else if x > 10_000_000 {
        fixed_text(float_quotient_fixed(x as nat, 6, 24, 0), 0).push('M')
    } else if x > 1_000_000 {
        fixed_text(float_quotient_fixed(x as nat, 6, 24, 1), 1).push('M')
    } else if x > 100_000 {
        fixed_text(float_quotient_fixed(x as nat, 3, 24, 0), 0).push('K')
    } else if x > 10_000 {
        fixed_text(float_quotient_fixed(x as nat, 3, 24, 0), 0).push('K')
    } else {
        int_text(x as int)
    }
}

fn scaled_with_suffix(x: i64, k: u32, decimals: u32, suffix: &'static str) -> (res: String)
    requires
        x > 0,
        k <= 9,
        decimals <= 2,
    ensures
        res@ == fixed_text(float_quotient_fixed(x as nat, k as nat, 24, decimals as nat), decimals as nat)
            + suffix@,
{
    let r = float_quotient_fixed_exec(x as u64, k, 24, decimals);
    let mut s = fixed_to_text(r, decimals);
    s.append(suffix);
    s
}

pub fn to_pill_number(x: i64) -> (res: String)
    ensures
        res@ == pill_text(x),
{
    proof {
        reveal_strlit("B");
        reveal_strlit("M");
        reveal_strlit("K");
    }
    let res = if x > 1_000_000_000 {
        scaled_with_suffix(x, 9, 1, "B")
    } else if x > 100_000_000 {
        scaled_with_suffix(x, 6, 0, "M")
    } else if x > 10_000_000 {
        scaled_with_suffix(x, 6, 0, "M")
    } else if x > 1_000_000 {
        scaled_with_suffix(x, 6, 1, "M")
    } else if x > 100_000 {
        scaled_with_suffix(x, 3, 0, "K")
    } else if x > 10_000 {
        scaled_with_suffix(x, 3, 0, "K")
    } else {
        int_to_text(x)
    };
    assert(res@ =~= pill_text(x));
    res
}

} // verus!
