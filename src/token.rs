use vstd::prelude::*;
use crate::text::string_of;

verus! {

/// The lower-case hexadecimal digit for `d`, which is below 16.
pub open spec fn hex_digit(d: nat) -> char {
    seq!['0', '1', '2', '3', '4', '5', '6', '7', '8', '9', 'a', 'b', 'c', 'd', 'e', 'f'][d as int]
}

/// `n` in lower-case hexadecimal, without leading zeros.
pub open spec fn hex_of(n: nat) -> Seq<char>
    decreases n,
{
    if n < 16 {
        seq![hex_digit(n)]
    } else {
        hex_of(n / 16).push(hex_digit(n % 16))
    }
}

fn hex_digit_exec(d: u128) -> (r: char)
    requires
        d < 16,
    ensures
        r == hex_digit(d as nat),
{
    let digits = ['0', '1', '2', '3', '4', '5', '6', '7', '8', '9', 'a', 'b', 'c', 'd', 'e', 'f'];
    assert(digits@ =~= seq!['0', '1', '2', '3', '4', '5', '6', '7', '8', '9', 'a', 'b', 'c', 'd', 'e', 'f']);
    digits[d as usize]
}

fn hex_exec(n: u128) -> (r: Vec<char>)
    ensures
        r@ == hex_of(n as nat),
    decreases n,
{
    if n < 16 {
        let mut v: Vec<char> = Vec::new();
        v.push(hex_digit_exec(n));
        assert(v@ =~= seq![hex_digit(n as nat)]);
        v
    } else {
        let mut v = hex_exec(n / 16);
        v.push(hex_digit_exec(n % 16));
        v
    }
}

/// A session token made of a timestamp and a random number, each in
/// lower-case hexadecimal.
pub fn format_token(timestamp_nanos: u128, random: u64) -> (r: String)
    ensures
        r@ == hex_of(timestamp_nanos as nat) + hex_of(random as nat),
{
    let mut v = hex_exec(timestamp_nanos);
    let mut w = hex_exec(random as u128);
    v.append(&mut w);
    string_of(&v)
}

/// Relies on `SystemTime::now` and `SystemTime::duration_since`: nanoseconds
/// since the Unix epoch, or 0 for a clock set before it. Nothing is promised
/// of the value.
#[verifier::external_body]
fn clock_nanos() -> u128 {
    match std::time::SystemTime::now().duration_since(std::time::UNIX_EPOCH) {
        Ok(d) => d.as_nanos(),
        Err(_) => 0,
    }
}

/// Relies on `RandomState::new`: a hash of nothing under fresh random keys,
/// which serves as a random number. Nothing is promised of the value.
#[verifier::external_body]
fn random_u64() -> u64 {
    let hasher = std::hash::BuildHasher::build_hasher(&std::collections::hash_map::RandomState::new());
    std::hash::Hasher::finish(&hasher)
}

/// A fresh session token from the clock and a random number.
pub fn generate_token() -> (r: String)
    ensures
        exists|t: u128, x: u64| r@ == hex_of(t as nat) + hex_of(x as nat),
{
    let t = clock_nanos();
    let x = random_u64();
    format_token(t, x)
}

} // verus!
