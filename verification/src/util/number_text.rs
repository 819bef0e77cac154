use vstd::prelude::*;

verus! {

/// The character of a decimal digit.
pub open spec fn digit_char(d: nat) -> char {
    (48 + d) as char
}

/// The decimal representation of `n`, without leading zeros.
pub open spec fn decimal(n: nat) -> Seq<char>
    decreases n,
{
    if n < 10 {
        seq![digit_char(n)]
    } else {
        decimal(n / 10) + seq![digit_char(n % 10)]
    }
}

/// Calls `itoa::Buffer::format`, whose output is the decimal representation
/// of the integer, as `Display` for integers writes it; this contract claims
/// exactly that.
#[verifier::external_body]
pub(crate) fn decimal_string(n: u64) -> (res: String)
    ensures
        res@ == decimal(n as nat),
{
    let mut buffer = itoa::Buffer::new();
    String::from(buffer.format(n))
}

} // verus!
