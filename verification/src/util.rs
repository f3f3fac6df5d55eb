//! Small value helpers: timestamps and their comparison.

use vstd::prelude::*;
use vstd::string::*;

use crate::text::{decimal, decimal_string, digit_of, digits};

verus! {

/// A point in time: a distance of whole seconds plus nanoseconds from the
/// Unix epoch, on the side of it that `before_epoch` tells.
#[derive(Clone, Copy, Debug, PartialEq, Eq, Structural)]
pub struct Timestamp {
    pub before_epoch: bool,
    pub secs: u64,
    pub nanos: u32,
}

impl Timestamp {
    /// The instant as a signed count of nanoseconds since the epoch.
    pub open spec fn total_nanos(self) -> int {
        let dist = self.secs * 1_000_000_000 + self.nanos;
        if self.before_epoch { -dist } else { dist }
    }

    /// The instant as a signed count of nanoseconds since the epoch.
    pub fn nanos_since_epoch(&self) -> (res: i128)
        ensures
            res == self.total_nanos(),
    {
        let dist = (self.secs as i128) * 1_000_000_000 + (self.nanos as i128);
        if self.before_epoch { -dist } else { dist }
    }
}

/// The later of two optional instants; `None` stands for "unknown".
pub open spec fn newest_spec(a: Option<Timestamp>, b: Option<Timestamp>) -> Option<Timestamp> {
    match (a, b) {
        (Some(x), Some(y)) => if y.total_nanos() >= x.total_nanos() { Some(y) } else { Some(x) },
        (x, None) => x,
        (None, y) => y,
    }
}

/// The more recent of two optional timestamps.
pub fn newest(a: Option<Timestamp>, b: Option<Timestamp>) -> (res: Option<Timestamp>)
    ensures
        res == newest_spec(a, b),
{
    match (a, b) {
        (Some(x), Some(y)) => {
            let later = y.nanos_since_epoch() >= x.nanos_since_epoch();
            if later { Some(y) } else { Some(x) }
        },
        (x, None) => x,
        (None, y) => y,
    }
}

} // verus!

verus! {

/// Whole seconds since the Unix epoch; `None` for an instant before it.
pub open spec fn unix_secs_spec(t: Timestamp) -> Option<u64> {
    if t.total_nanos() >= 0 {
        Some((t.total_nanos() / 1_000_000_000) as u64)
    } else {
        None
    }
}

/// Seconds since the Unix epoch, for stable JSON output.
pub fn unix_secs(t: Timestamp) -> (res: Option<u64>)
    ensures
        res == unix_secs_spec(t),
{
    let total = t.nanos_since_epoch();
    if total >= 0 {
        Some((total / 1_000_000_000) as u64)
    } else {
        None
    }
}

/// `2^e`.
pub open spec fn two_to(e: nat) -> nat
    decreases e,
{
    if e == 0 { 1 } else { 2 * two_to((e - 1) as nat) }
}

/// `1024^u`.
pub open spec fn pow1024(u: nat) -> nat
    decreases u,
{
    if u == 0 { 1 } else { 1024 * pow1024((u - 1) as nat) }
}

/// How many low bits must be dropped from `b` for it to fit the 53-bit
/// significand of an `f64`.
pub open spec fn sig_shift(b: nat) -> nat
    decreases b,
{
    if b < 0x20_0000_0000_0000 { 0 } else { 1 + sig_shift(b / 2) }
}

/// `n / d` rounded to the nearest integer, ties to the even one.
pub open spec fn div_round_even(n: nat, d: nat) -> nat {
    let q = n / d;
    let r = n % d;
    if 2 * r > d || (2 * r == d && q % 2 == 1) { q + 1 } else { q }
}

/// The integer value of `b as f64`: `b` rounded to 53 significant bits,
/// ties to even.
pub open spec fn f64_value(b: nat) -> nat {
    let e = sig_shift(b);
    div_round_even(b, two_to(e)) * two_to(e)
}

/// The largest unit index (at most 5) whose size `value` still reaches,
/// starting the search at `u`.
pub open spec fn unit_for(value: nat, u: nat) -> nat
    decreases 5 - u,
{
    if u < 5 && value >= pow1024(u + 1) { unit_for(value, u + 1) } else { u }
}

/// The suffix of unit `u`: B, KB, MB, GB, TB or PB.
pub open spec fn unit_name(u: nat) -> Seq<char> {
    if u == 0 {
        seq!['B']
    } else if u == 1 {
        seq!['K', 'B']
    } else if u == 2 {
        seq!['M', 'B']
    } else if u == 3 {
        seq!['G', 'B']
    } else if u == 4 {
        seq!['T', 'B']
    } else {
        seq!['P', 'B']
    }
}

/// The text of a byte count: the exact count in bytes below 1 KB, otherwise
/// the value in the largest unit it reaches (at most PB) with one decimal,
/// as `{:.1}` prints the `f64` quotient.
pub open spec fn human_size_spec(bytes: u64) -> Seq<char> {
    if bytes == 0 {
        seq!['0', ' ', 'B']
    } else {
        let r = f64_value(bytes as nat);
        let u = unit_for(r, 0);
        if u == 0 {
            decimal(bytes as nat) + seq![' ', 'B']
        } else {
            let t = div_round_even(r * 10, pow1024(u));
            decimal(t / 10) + seq!['.'] + seq![digits()[(t % 10) as int]] + seq![' '] + unit_name(u)
        }
    }
}

fn unit_suffix(u: u32) -> (res: &'static str)
    requires
        1 <= u <= 5,
    ensures
        res@ == seq![' '] + unit_name(u as nat),
{
    proof {
        reveal_strlit(" KB");
        reveal_strlit(" MB");
        reveal_strlit(" GB");
        reveal_strlit(" TB");
        reveal_strlit(" PB");
    }
    let s = if u == 1 {
        " KB"
    } else if u == 2 {
        " MB"
    } else if u == 3 {
        " GB"
    } else if u == 4 {
        " TB"
    } else {
        " PB"
    };
    assert(s@ =~= seq![' '] + unit_name(u as nat));
    s
}

/// `n / d` rounded half to even, on machine integers.
fn div_round_even_exec(n: u128, d: u128) -> (res: u128)
    requires
        d > 0,
        d < 0x2000_0000_0000_0000_0000_0000_0000_0000,
        n < 0x2000_0000_0000_0000_0000_0000_0000_0000,
    ensures
        res == div_round_even(n as nat, d as nat),
{
    let q = n / d;
    let r = n % d;
    if 2 * r > d || (2 * r == d && q % 2 == 1) {
        q + 1
    } else {
        q
    }
}

proof fn lemma_shift_step(b: nat, p: nat, q: nat)
    requires
        p > 0,
        q == b / p,
    ensures
        q / 2 == b / (p * 2),
{
    vstd::arithmetic::div_mod::lemma_div_denominator(b as int, p as int, 2);
}

/// The value of `bytes as f64`, as an exact integer.
fn f64_value_exec(bytes: u64) -> (res: u128)
    ensures
        res == f64_value(bytes as nat),
        res <= 0x20_0000_0000_0000 * 0x1_0000_0000_0000_0000,
        bytes > 0 ==> res > 0,
        bytes < 0x20_0000_0000_0000 ==> res == bytes,
{
    let b = bytes as u128;
    let mut q: u128 = b;
    let mut p: u128 = 1;
    let ghost mut e: nat = 0;
    while q >= 0x20_0000_0000_0000
        invariant
            p > 0,
            p == two_to(e),
            q == b / p,
            b < 0x1_0000_0000_0000_0000,
            sig_shift(b as nat) == e + sig_shift(q as nat),
            p * q <= b,
            p == 1 || p <= b,
            e == 0 ==> p == 1,
        decreases q,
    {
        proof {
            lemma_shift_step(b as nat, p as nat, q as nat);
            assert(p * 2 <= b) by (nonlinear_arith)
                requires
                    p * q <= b,
                    q >= 2,
                    p > 0,
            ;
            assert((p * 2) * (q / 2) <= p * q) by (nonlinear_arith)
                requires
                    p > 0,
            ;
        }
        q = q / 2;
        p = p * 2;
        proof {
            e = e + 1;
        }
    }
    assert(sig_shift(q as nat) == 0);
    let qq = div_round_even_exec(b, p);
    assert(qq <= q + 1);
    assert(qq * p <= 0x20_0000_0000_0000 * 0x1_0000_0000_0000_0000) by (nonlinear_arith)
        requires
            qq <= q + 1,
            q < 0x20_0000_0000_0000,
            p <= 0x1_0000_0000_0000_0000,
    ;
    let res = qq * p;
    proof {
        if e == 0 {
            assert(b / 1 == b);
            assert(b % 1 == 0);
        }
        if bytes > 0 {
            assert(q >= 1 || e == 0) by {
                if e > 0 {
                    assert(p <= b);
                    vstd::arithmetic::div_mod::lemma_div_non_zero(b as int, p as int);
                }
            }
            assert(qq >= q);
            assert(qq * p > 0) by (nonlinear_arith)
                requires
                    qq >= 1,
                    p > 0,
            ;
        }
    }
    res
}

proof fn lemma_pow1024_bound(u: nat)
    requires
        u <= 5,
    ensures
        1 <= pow1024(u) <= 0x4_0000_0000_0000,
{
    reveal_with_fuel(pow1024, 6);
}

/// Human-readable byte size, e.g. `1.5 GB`.
pub fn human_size(bytes: u64) -> (res: String)
    ensures
        res@ == human_size_spec(bytes),
{
    if bytes == 0 {
        let z = "0 B";
        proof {
            reveal_strlit("0 B");
        }
        assert(z@ =~= seq!['0', ' ', 'B']);
        return String::from_str(z);
    }
    let r = f64_value_exec(bytes);
    let mut u: u32 = 0;
    let mut d: u128 = 1;
    while u < 5 && r >= d * 1024
        invariant
            u <= 5,
            d == pow1024(u as nat),
            1 <= d <= 0x4_0000_0000_0000,
            r <= 0x20_0000_0000_0000 * 0x1_0000_0000_0000_0000,
            unit_for(r as nat, 0) == unit_for(r as nat, u as nat),
        decreases 5 - u,
    {
        d = d * 1024;
        u = u + 1;
        proof {
            lemma_pow1024_bound(u as nat);
        }
    }
    assert(unit_for(r as nat, u as nat) == u);
    if u == 0 {
        let mut s = decimal_string(bytes as u128);
        let unit = " B";
        proof {
            reveal_strlit(" B");
        }
        s.append(unit);
        assert(s@ =~= human_size_spec(bytes));
        s
    } else {
        let t = div_round_even_exec(r * 10, d);
        let mut s = decimal_string(t / 10);
        let dot = ".";
        proof {
            reveal_strlit(".");
        }
        s.append(dot);
        s.append(digit_of(t % 10));
        s.append(unit_suffix(u));
        assert(s@ =~= human_size_spec(bytes));
        s
    }
}

} // verus!

verus! {

/// The current wall-clock time, from `std::time::SystemTime::now`, as
/// seconds and nanoseconds relative to the Unix epoch. Nothing is promised
/// of the value: it is whatever the system clock reads.
#[verifier::external_body]
pub(crate) fn current_time() -> (res: Timestamp) {
    match std::time::SystemTime::now().duration_since(std::time::UNIX_EPOCH) {
        Ok(d) => Timestamp { before_epoch: false, secs: d.as_secs(), nanos: d.subsec_nanos() },
        Err(e) => Timestamp {
            before_epoch: true,
            secs: e.duration().as_secs(),
            nanos: e.duration().subsec_nanos(),
        },
    }
}

/// The coarse age of a modification time seen at `now`: whole days when at
/// least one, else whole hours when at least one, else "today"; a dash when
/// the time is unknown or lies after `now`.
pub open spec fn age_text(t: Option<Timestamp>, now: Timestamp) -> Seq<char> {
    match t {
        None => seq!['\u{2014}'],
        Some(t) => {
            let elapsed = now.total_nanos() - t.total_nanos();
            if elapsed < 0 {
                seq!['\u{2014}']
            } else {
                let secs = (elapsed / 1_000_000_000) as nat;
                if secs / 86_400 >= 1 {
                    decimal(secs / 86_400) + seq!['d', ' ', 'a', 'g', 'o']
                } else if secs / 3_600 >= 1 {
                    decimal(secs / 3_600) + seq!['h', ' ', 'a', 'g', 'o']
                } else {
                    seq!['t', 'o', 'd', 'a', 'y']
                }
            }
        },
    }
}

/// The age of `t` as seen at `now`, e.g. `12d ago`.
pub fn age_label(t: Option<Timestamp>, now: Timestamp) -> (res: String)
    ensures
        res@ == age_text(t, now),
{
    let dash = "\u{2014}";
    proof {
        reveal_strlit("\u{2014}");
    }
    assert(dash@ =~= seq!['\u{2014}']);
    match t {
        None => String::from_str(dash),
        Some(t) => {
            let elapsed = now.nanos_since_epoch() - t.nanos_since_epoch();
            if elapsed < 0 {
                return String::from_str(dash);
            }
            let secs = (elapsed / 1_000_000_000) as u128;
            if secs / 86_400 >= 1 {
                let mut s = decimal_string(secs / 86_400);
                let tail = "d ago";
                proof {
                    reveal_strlit("d ago");
                }
                s.append(tail);
                assert(s@ =~= age_text(Some(t), now));
                s
            } else if secs / 3_600 >= 1 {
                let mut s = decimal_string(secs / 3_600);
                let tail = "h ago";
                proof {
                    reveal_strlit("h ago");
                }
                s.append(tail);
                assert(s@ =~= age_text(Some(t), now));
                s
            } else {
                let today = "today";
                proof {
                    reveal_strlit("today");
                }
                assert(today@ =~= age_text(Some(t), now));
                String::from_str(today)
            }
        },
    }
}

/// Format a modification time as a coarse relative age, e.g. `12d ago`,
/// measured against the current clock.
pub fn relative_age(t: Option<Timestamp>) -> (res: String)
    ensures
        exists|now: Timestamp| res@ == age_text(t, now),
{
    let now = current_time();
    age_label(t, now)
}

} // verus!
