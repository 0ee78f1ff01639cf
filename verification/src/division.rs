//! Small checked-division helpers: the same quotient under three error
//! disciplines — a precondition, an `Option`, and a `Result` with a named
//! error.

use vstd::prelude::*;

verus! {

/// Why a division was refused.
#[derive(Clone, Copy, Debug, PartialEq, Eq, Structural)]
pub enum DivError {
    /// The denominator handed in; it was zero.
    BadDenominator(u8),
}

/// Integer quotient of `n` by `d`; the caller owes a non-zero denominator.
pub fn div_raw(n: u8, d: u8) -> (q: u8)
    requires
        d != 0,
    ensures
        q == n as int / d as int,
{
    n / d
}

/// Integer quotient of `n` by `d`, or `None` exactly when `d` is zero.
pub fn div_option(n: u8, d: u8) -> (r: Option<u8>)
    ensures
        d != 0 ==> r == Some((n as int / d as int) as u8),
        d == 0 ==> r is None,
{
    if d != 0 {
        Some(n / d)
    } else {
        None
    }
}

/// Integer quotient of `n` by `d`, or `Err(BadDenominator)` carrying the
/// offending denominator exactly when `d` is zero.
pub fn div_result(n: u8, d: u8) -> (r: Result<u8, DivError>)
    ensures
        d != 0 ==> r == Ok::<u8, DivError>((n as int / d as int) as u8),
        d == 0 ==> r == Err::<u8, DivError>(DivError::BadDenominator(d)),
{
    if d != 0 {
        Ok(n / d)
    } else {
        Err(DivError::BadDenominator(d))
    }
}

} // verus!
