//! The two lines that the relay itself sends to a client.
use crate::config::MILLIS_PER_SECOND;
use vstd::prelude::*;
use vstd::string::*;

verus! {

/// The decimal digits of `n` in ASCII, most significant first, without
/// leading zeros.
pub open spec fn decimal(n: nat) -> Seq<u8>
    decreases n,
{
    if n < 10 {
        seq![(48 + n) as u8]
    } else {
        decimal(n / 10).push((48 + n % 10) as u8)
    }
}

/// The line sent to a client whose strikes have got it banned.
pub open spec fn ban_notice() -> Seq<u8> {
    "You are banned MF\n".spec_bytes()
}

/// The line sent to a connection that is turned away because a ban of its
/// origin has `left` milliseconds to run. It states the whole seconds left.
pub open spec fn rejection_notice(left: u64) -> Seq<u8> {
    "your are banned MF: ".spec_bytes() + decimal((left / MILLIS_PER_SECOND) as nat)
        + " secs left\n".spec_bytes()
}

/// Writes `n` in decimal.
pub fn render_decimal(n: u64) -> (digits: Vec<u8>)
    ensures
        digits@ == decimal(n as nat),
    decreases n,
{
    if n < 10 {
        let mut digits: Vec<u8> = Vec::new();
        digits.push(48 + n as u8);
        assert(digits@ =~= decimal(n as nat));
        digits
    } else {
        let mut digits = render_decimal(n / 10);
        digits.push(48 + (n % 10) as u8);
        digits
    }
}

/// Builds [`ban_notice`].
pub fn render_ban_notice() -> (line: Vec<u8>)
    ensures
        line@ == ban_notice(),
{
    "You are banned MF\n".as_bytes_vec()
}

/// Builds [`rejection_notice`].
pub fn render_rejection_notice(left: u64) -> (line: Vec<u8>)
    ensures
        line@ == rejection_notice(left),
{
    let mut line = "your are banned MF: ".as_bytes_vec();
    let mut digits = render_decimal(left / MILLIS_PER_SECOND);
    line.append(&mut digits);
    let mut tail = " secs left\n".as_bytes_vec();
    line.append(&mut tail);
    line
}

} // verus!
