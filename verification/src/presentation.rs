//! How sizes, rates, ways of sending and connections are shown.
//!
//! Sizes are shown as Rust shows an `f64` with a fixed number of decimals:
//! the byte count is first rounded to the nearest double (ties to even), and
//! the quotient by the unit is then rounded to the requested decimals (ties
//! to even). All of it is computed exactly with integers.

use vstd::prelude::*;
use crate::domain::content::SendMethod;
use crate::domain::device::{Connection, ConnectionView};
use crate::text::{decimal, digit_char, digit_of, push_decimal, push_char, push_str, zero_padded};

verus! {

pub open spec fn two_to(e: nat) -> nat
    decreases e,
{
    if e == 0 { 1 } else { 2 * two_to((e - 1) as nat) }
}

pub open spec fn ten_to(e: nat) -> nat
    decreases e,
{
    if e == 0 { 1 } else { 10 * ten_to((e - 1) as nat) }
}

pub open spec fn two_53() -> nat { 0x20_0000_0000_0000 }

/// How often `n` must be halved to fall below 2^53.
pub open spec fn halvings(n: nat) -> nat
    decreases n,
{
    if n < two_53() { 0 } else { 1 + halvings(n / 2) }
}

/// `num / den` rounded to the nearest integer, ties to even.
pub open spec fn round_div_even(num: nat, den: nat) -> nat {
    let q = num / den;
    let r = num % den;
    if 2 * r > den || (2 * r == den && q % 2 == 1) { q + 1 } else { q }
}

/// The double nearest to `n` (ties to even), as an integer.
pub open spec fn as_double(n: nat) -> nat {
    let p = two_to(halvings(n));
    round_div_even(n, p) * p
}

/// A value scaled by 10^places, written with that many decimals.
pub open spec fn fixed(v: nat, places: nat) -> Seq<char> {
    if places == 0 {
        decimal(v)
    } else {
        decimal(v / ten_to(places)) + "."@ + zero_padded(v % ten_to(places), places)
    }
}

/// `x / 2^unit` as Rust writes the double `x` divided by that unit with
/// `places` decimals.
pub open spec fn shown_quotient(x: nat, unit: nat, places: nat) -> Seq<char> {
    fixed(round_div_even(x * ten_to(places), two_to(unit)), places)
}

pub open spec fn format_size_spec(bytes: nat) -> Seq<char> {
    let x = as_double(bytes);
    if x >= two_to(30) {
        shown_quotient(x, 30, 2) + " GiB"@
    } else if x >= two_to(20) {
        if x >= 100 * two_to(20) {
            shown_quotient(x, 20, 0) + " MiB"@
        } else {
            shown_quotient(x, 20, 1) + " MiB"@
        }
    } else {
        shown_quotient(x, 10, 1) + " KiB"@
    }
}

pub open spec fn format_rate_spec(bytes_per_second: nat) -> Seq<char> {
    shown_quotient(as_double(bytes_per_second), 20, 1) + " MiB/s"@
}

proof fn lemma_halve_step(p: u128, m: u128, n: u128)
    requires
        p * m <= n,
        p >= 1,
    ensures
        (2 * p) * (m / 2) <= n,
{
    assert((2 * p) * (m / 2) <= p * m) by (nonlinear_arith)
        requires p >= 1;
}

/// The double nearest to `n`, as an integer.
fn nearest_double(n: u64) -> (x: u128)
    ensures
        x == as_double(n as nat),
        x <= 0x2_0000_0000_0000_0000,
{
    let mut m: u64 = n;
    let mut p: u128 = 1;
    let ghost mut s: nat = 0;
    while m >= 0x20_0000_0000_0000
        invariant
            p == two_to(s),
            halvings(n as nat) == s + halvings(m as nat),
            p * m <= n,
            p >= 1,
            n == 0 || m >= 1,
        decreases m,
    {
        proof {
            lemma_halve_step(p, m as u128, n as u128);
        }
        assert(p <= n) by (nonlinear_arith)
            requires
                p * (m as u128) <= n as u128,
                m >= 1,
        ;
        m = m / 2;
        p = p * 2;
        proof {
            s = s + 1;
        }
    }
    let nn: u128 = n as u128;
    assert(nn == 0 || p <= nn) by (nonlinear_arith)
        requires
            p * (m as u128) <= nn,
            nn == 0 || m >= 1,
            p >= 1,
    ;
    let q: u128 = nn / p;
    let r: u128 = nn % p;
    proof {
        vstd::arithmetic::div_mod::lemma_fundamental_div_mod(nn as int, p as int);
    }
    let rounded: u128 = if 2 * r > p || (2 * r == p && q % 2 == 1) { q + 1 } else { q };
    assert(q * p == p * q) by (nonlinear_arith);
    assert(nn == 0 ==> q == 0) by (nonlinear_arith)
        requires
            nn == p * q + r,
            0 <= r,
            p >= 1,
            q >= 0,
    ;
    if rounded == q + 1 {
        assert(rounded * p == q * p + p) by (nonlinear_arith)
            requires
                rounded == q + 1,
        ;
    }
    assert(rounded * p <= 2 * nn + 1);
    rounded * p
}

/// Appends `v / 10^places` with `places` decimals, for one or two places or none.
fn push_fixed(s: &mut String, v: u128, places: u8)
    requires
        places <= 2,
    ensures
        final(s)@ == old(s)@ + fixed(v as nat, places as nat),
{
    if places == 0 {
        push_decimal(s, v);
        return;
    }
    let scale: u128 = if places == 1 { 10 } else { 100 };
    assert(ten_to(places as nat) == scale) by {
        reveal_with_fuel(ten_to, 3);
    }
    push_decimal(s, v / scale);
    push_str(s, ".");
    let frac = v % scale;
    if places == 1 {
        push_char(s, digit_of(frac as u8));
        assert(decimal(frac as nat) =~= seq![digit_char(frac as nat)]);
        assert(zero_padded(frac as nat, 1) == decimal(frac as nat));
    } else {
        if frac < 10 {
            push_char(s, '0');
            push_char(s, digit_of(frac as u8));
            assert(decimal(frac as nat) =~= seq![digit_char(frac as nat)]);
            assert(zero_padded(frac as nat, 1) == decimal(frac as nat));
            assert(zero_padded(frac as nat, 2) =~= seq!['0'] + decimal(frac as nat));
        } else {
            push_char(s, digit_of((frac / 10) as u8));
            push_char(s, digit_of((frac % 10) as u8));
            assert(decimal((frac / 10) as nat) =~= seq![digit_char((frac / 10) as nat)]);
            assert(decimal(frac as nat) =~= seq![digit_char((frac / 10) as nat), digit_char((frac % 10) as nat)]);
            assert(zero_padded(frac as nat, 2) == decimal(frac as nat));
        }
    }
    assert(fixed(v as nat, places as nat) =~= decimal((v / scale) as nat) + "."@ + zero_padded(frac as nat, places as nat));
}

/// Appends `x / 2^unit` with `places` decimals.
fn push_quotient(s: &mut String, x: u128, unit: u8, places: u8)
    requires
        x <= 0x2_0000_0000_0000_0000,
        unit == 10 || unit == 20 || unit == 30,
        places <= 2,
    ensures
        final(s)@ == old(s)@ + shown_quotient(x as nat, unit as nat, places as nat),
{
    let scale: u128 = if places == 0 { 1 } else if places == 1 { 10 } else { 100 };
    let den: u128 = if unit == 10 { 0x400 } else if unit == 20 { 0x10_0000 } else { 0x4000_0000 };
    assert(ten_to(places as nat) == scale) by {
        reveal_with_fuel(ten_to, 3);
    }
    assert(two_to(unit as nat) == den) by {
        reveal_with_fuel(two_to, 31);
    }
    let num: u128 = x * scale;
    let q = num / den;
    let r = num % den;
    let v: u128 = if 2 * r > den || (2 * r == den && q % 2 == 1) { q + 1 } else { q };
    push_fixed(s, v, places);
}

/// The size of a selection as shown: KiB with one decimal, MiB with one
/// decimal (none from 100 MiB), GiB with two decimals.
pub fn format_size(bytes: u64) -> (r: String)
    ensures
        r@ == format_size_spec(bytes as nat),
{
    let x = nearest_double(bytes);
    assert(two_to(30) == 0x4000_0000 && two_to(20) == 0x10_0000) by {
        reveal_with_fuel(two_to, 31);
    }
    let mut s = String::new();
    if x >= 0x4000_0000 {
        push_quotient(&mut s, x, 30, 2);
        push_str(&mut s, " GiB");
    } else if x >= 0x10_0000 {
        if x >= 100 * 0x10_0000 {
            push_quotient(&mut s, x, 20, 0);
        } else {
            push_quotient(&mut s, x, 20, 1);
        }
        push_str(&mut s, " MiB");
    } else {
        push_quotient(&mut s, x, 10, 1);
        push_str(&mut s, " KiB");
    }
    assert(s@ =~= format_size_spec(bytes as nat));
    s
}

/// A transfer rate as shown: MiB per second with one decimal.
pub fn format_rate(bytes_per_second: u64) -> (r: String)
    ensures
        r@ == format_rate_spec(bytes_per_second as nat),
{
    let x = nearest_double(bytes_per_second);
    let mut s = String::new();
    push_quotient(&mut s, x, 20, 1);
    push_str(&mut s, " MiB/s");
    assert(s@ =~= format_rate_spec(bytes_per_second as nat));
    s
}

pub open spec fn send_method_label_spec(method: SendMethod) -> Seq<char> {
    match method {
        SendMethod::Separate => "分别发送"@,
        SendMethod::Archive => "打包后发送"@,
    }
}

pub fn send_method_label(method: SendMethod) -> (r: &'static str)
    ensures
        r@ == send_method_label_spec(method),
{
    match method {
        SendMethod::Separate => "分别发送",
        SendMethod::Archive => "打包后发送",
    }
}

pub open spec fn connection_label_spec(connection: ConnectionView) -> Seq<char> {
    match connection {
        ConnectionView::Offline => "离线"@,
        ConnectionView::Direct => "直连"@,
        ConnectionView::Derp(region) => "DERP · "@ + region,
        ConnectionView::PeerRelay(_) => "Peer Relay"@,
    }
}

pub fn connection_label(connection: &Connection) -> (r: String)
    ensures
        r@ == connection_label_spec(connection@),
{
    let mut s = String::new();
    match connection {
        Connection::Offline => push_str(&mut s, "离线"),
        Connection::Direct => push_str(&mut s, "直连"),
        Connection::Derp(region) => {
            push_str(&mut s, "DERP · ");
            push_str(&mut s, region.as_str());
        },
        Connection::PeerRelay(_) => push_str(&mut s, "Peer Relay"),
    }
    assert(s@ =~= connection_label_spec(connection@));
    s
}

} // verus!
