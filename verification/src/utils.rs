//! Small integer helpers.
use vstd::prelude::*;

verus! {

/// The linear interpolation from `from` to `to` at `factor / factor_max`,
/// rounded down; `to` once `factor` is past `factor_max`.
pub open spec fn spec_lerpi(from: u32, to: u32, factor: u32, factor_max: u32) -> int {
    if factor > factor_max {
        to as int
    } else {
        (from * (factor_max - factor) + to * factor) / factor_max as int
    }
}

pub fn lerpi(from: u32, to: u32, factor: u32, factor_max: u32) -> (r: u32)
    requires
        factor <= factor_max ==> factor_max != 0,
        factor <= factor_max ==> from * (factor_max - factor) + to * factor <= u32::MAX,
    ensures
        r == spec_lerpi(from, to, factor, factor_max),
{
    if factor > factor_max {
        return to;
    }
    assert(0 <= from * (factor_max - factor) <= from * (factor_max - factor) + to * factor)
        by (nonlinear_arith)
        requires
            factor <= factor_max,
    ;
    assert(0 <= to * factor) by (nonlinear_arith);
    (from * (factor_max - factor) + to * factor) / factor_max
}

/// Interpolation starts at `from` and ends at `to`.
pub proof fn lemma_lerpi_ends(from: u32, to: u32, factor_max: u32)
    requires
        factor_max != 0,
    ensures
        spec_lerpi(from, to, 0, factor_max) == from,
        spec_lerpi(from, to, factor_max, factor_max) == to,
{
    assert((from * factor_max) / factor_max as int == from) by (nonlinear_arith)
        requires
            factor_max != 0,
    ;
    assert((to * factor_max) / factor_max as int == to) by (nonlinear_arith)
        requires
            factor_max != 0,
    ;
}

/// A string to be shown cut after `max_len` characters.
pub struct DisplayTruncated<'a>(pub &'a str, pub usize);

impl<'a> DisplayTruncated<'a> {
    pub fn new(s: &'a str, max_len: usize) -> (r: Self)
        ensures
            r.0 == s,
            r.1 == max_len,
    {
        Self(s, max_len)
    }

    /// The first `max_len` characters of the string, then `...`.
    pub fn to_string(&self) -> (r: String)
        ensures
            r@ == self.0@.take(if self.0@.len() < self.1 { self.0@.len() as int } else { self.1 as int }) + "..."@,
    {
        let n = self.0.unicode_len();
        let take = if n < self.1 {
            n
        } else {
            self.1
        };
        let mut r = String::from_str(self.0.substring_char(0, take));
        r.append("...");
        r
    }
}

/// The character of the decimal digit `d`.
pub open spec fn digit_char(d: nat) -> char {
    (d + 48) as char
}

/// The decimal digits of `n`, without leading zeros.
pub open spec fn decimal(n: nat) -> Seq<char>
    decreases n,
{
    if n < 10 {
        seq![digit_char(n)]
    } else {
        decimal(n / 10) + seq![digit_char(n % 10)]
    }
}

fn digit_str(d: u64) -> (r: &'static str)
    requires
        d < 10,
    ensures
        r@ == seq![digit_char(d as nat)],
{
    proof {
        reveal_strlit("0");
        reveal_strlit("1");
        reveal_strlit("2");
        reveal_strlit("3");
        reveal_strlit("4");
        reveal_strlit("5");
        reveal_strlit("6");
        reveal_strlit("7");
        reveal_strlit("8");
        reveal_strlit("9");
    }
    match d {
        0 => "0",
        1 => "1",
        2 => "2",
        3 => "3",
        4 => "4",
        5 => "5",
        6 => "6",
        7 => "7",
        8 => "8",
        _ => "9",
    }
}

/// Writes the decimal digits of `n` at the end of `s`.
pub(crate) fn push_decimal(s: &mut String, n: u64)
    ensures
        final(s)@ == old(s)@ + decimal(n as nat),
    decreases n,
{
    if n >= 10 {
        push_decimal(s, n / 10);
    }
    s.append(digit_str(n % 10));
}

} // verus!
