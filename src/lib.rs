//! A viewport-driven field visualizer: the transform math that moves the
//! visible domain, the parameter record handed to the field kernel, the
//! contrast-normalization stages (stats, recalibration, histogram, CDF,
//! equalization) and the per-frame scheduling of that work.
//!
//! Coordinates and other real quantities are fixed-point integers: a value
//! `v` stands for `v / COORD_ONE`.

pub mod field;
pub mod params;
pub mod postprocess;
pub mod resources;
pub mod session;
pub mod viewport;

use vstd::prelude::*;
use vstd::string::*;

verus! {

pub open spec fn digit_char(d: int) -> char {
    if d == 0 {
        '0'
    } else if d == 1 {
        '1'
    } else if d == 2 {
        '2'
    } else if d == 3 {
        '3'
    } else if d == 4 {
        '4'
    } else if d == 5 {
        '5'
    } else if d == 6 {
        '6'
    } else if d == 7 {
        '7'
    } else if d == 8 {
        '8'
    } else {
        '9'
    }
}

/// Decimal digits of `n`, most significant first, without leading zeros.
pub open spec fn decimal(n: nat) -> Seq<char>
    decreases n,
{
    if n < 10 {
        seq![digit_char(n as int)]
    } else {
        decimal(n / 10) + seq![digit_char((n % 10) as int)]
    }
}

/// `./{prefix}_{millis}.png`.
pub open spec fn save_path_spec(prefix: Seq<char>, millis: nat) -> Seq<char> {
    seq!['.', '/'] + prefix + seq!['_'] + decimal(millis) + seq!['.', 'p', 'n', 'g']
}

fn digit_str(d: u128) -> (r: &'static str)
    requires
        d < 10,
    ensures
        r@ == seq![digit_char(d as int)],
{
    proof {
        reveal_strlit("0");
        reveal_strlit("1");
        reveal_strlit("2");
        reveal_strlit("3");
        reveal_strlit("4");
        reveal_strlit("5");
        reveal_strlit("6");
        reveal_strlit("7");
        reveal_strlit("8");
        reveal_strlit("9");
    }
    match d {
        0 => "0",
        1 => "1",
        2 => "2",
        3 => "3",
        4 => "4",
        5 => "5",
        6 => "6",
        7 => "7",
        8 => "8",
        _ => "9",
    }
}

fn append_decimal(s: &mut String, n: u128)
    ensures
        final(s)@ == old(s)@ + decimal(n as nat),
    decreases n,
{
    if n >= 10 {
        append_decimal(s, n / 10);
    }
    s.append(digit_str(n % 10));
    assert(s@ =~= old(s)@ + decimal(n as nat));
}

/// The save path for an image taken `millis` milliseconds after the Unix
/// epoch: `./{prefix}_{millis}.png`.
pub fn save_path(prefix: &str, millis: u128) -> (r: String)
    ensures
        r@ == save_path_spec(prefix@, millis as nat),
{
    proof {
        reveal_strlit("./");
        reveal_strlit("_");
        reveal_strlit(".png");
    }
    let mut s = String::from_str("./");
    s.append(prefix);
    s.append("_");
    append_decimal(&mut s, millis);
    s.append(".png");
    assert(s@ =~= save_path_spec(prefix@, millis as nat));
    s
}

#[verifier::external_type_specification]
#[verifier::external_body]
pub struct ExSystemTime(std::time::SystemTime);

/// Relies on `SystemTime::now`: the wall-clock time; nothing is known of it.
#[verifier::external_body]
fn system_now() -> std::time::SystemTime {
    std::time::SystemTime::now()
}

/// Relies on `SystemTime::duration_since(UNIX_EPOCH)`, read in whole
/// milliseconds; `None` when `t` is earlier than the epoch.
#[verifier::external_body]
fn millis_since_epoch(t: &std::time::SystemTime) -> Option<u128> {
    match t.duration_since(std::time::UNIX_EPOCH) {
        Ok(d) => Some(d.as_millis()),
        Err(_) => None,
    }
}

/// The save path for an image taken now: `./{prefix}_{millis}.png`, with
/// the milliseconds since the Unix epoch. `None` when the clock reads a
/// time before the epoch.
pub fn get_save_path(prefix: &str) -> (r: Option<String>)
    ensures
        r matches Some(p) ==> exists|m: nat| p@ == save_path_spec(prefix@, m),
{
    let now = system_now();
    match millis_since_epoch(&now) {
        Some(m) => Some(save_path(prefix, m)),
        None => None,
    }
}

} // verus!
