use vstd::prelude::*;

verus! {

/// Relies on rand's `Rng::gen_range` over `0..4`: a value drawn from the range.
#[verifier::external_body]
pub(crate) fn random_heading() -> (r: u32)
    ensures
        r < 4,
{
    rand::Rng::gen_range(&mut rand::thread_rng(), 0u32..4u32)
}

/// Relies on chrono's `Local::now` and `Timelike::hour`: the hour, 0 to 23.
#[verifier::external_body]
pub(crate) fn local_hour() -> (r: u32)
    ensures
        r < 24,
{
    chrono::Timelike::hour(&chrono::Local::now())
}

/// Relies on chrono's `Local::now` and `Timelike::minute`: the minute, 0 to 59.
#[verifier::external_body]
pub(crate) fn local_minute() -> (r: u32)
    ensures
        r < 60,
{
    chrono::Timelike::minute(&chrono::Local::now())
}

/// Relies on chrono's `Local::now` and `Timelike::second`: the second, 0 to 59.
#[verifier::external_body]
pub(crate) fn local_second() -> (r: u32)
    ensures
        r < 60,
{
    chrono::Timelike::second(&chrono::Local::now())
}

/// Whether `n` is a Unicode scalar value: not a surrogate, at most 0x10FFFF.
pub open spec fn is_scalar(n: u32) -> bool {
    n < 0xD800 || (0xE000 <= n && n <= 0x10FFFF)
}

/// Relies on `char::from_u32`: the char of code `n`, exactly when `n` is a
/// scalar value.
#[verifier::external_body]
pub(crate) fn char_from_code(n: u32) -> (r: Option<char>)
    ensures
        r is Some <==> is_scalar(n),
        r matches Some(c) ==> c as u32 == n,
{
    char::from_u32(n)
}

/// Relies on `char::to_string`: a string of that one char.
#[verifier::external_body]
pub(crate) fn char_text(c: char) -> (r: String)
    ensures
        r@ == seq![c],
{
    c.to_string()
}

/// A decimal digit as a char.
pub open spec fn digit_char(d: nat) -> char {
    if d == 0 {
        '0'
    } else if d == 1 {
        '1'
    } else if d == 2 {
        '2'
    } else if d == 3 {
        '3'
    } else if d == 4 {
        '4'
    } else if d == 5 {
        '5'
    } else if d == 6 {
        '6'
    } else if d == 7 {
        '7'
    } else if d == 8 {
        '8'
    } else {
        '9'
    }
}

/// The decimal text of `n`, without sign or leading zeros.
pub open spec fn decimal_text(n: nat) -> Seq<char>
    decreases n,
{
    if n < 10 {
        seq![digit_char(n)]
    } else {
        decimal_text(n / 10).push(digit_char(n % 10))
    }
}

/// The decimal text of `n`, with a minus sign when it is negative.
pub open spec fn signed_text(n: int) -> Seq<char> {
    if n < 0 {
        seq!['-'] + decimal_text((-n) as nat)
    } else {
        decimal_text(n as nat)
    }
}

/// Relies on `i128`'s `to_string`: its decimal text.
#[verifier::external_body]
pub(crate) fn decimal(n: i128) -> (r: String)
    ensures
        r@ == signed_text(n as int),
{
    n.to_string()
}

} // verus!
