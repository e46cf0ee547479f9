use vstd::prelude::*;

use crate::text::{chars_of, decimal, push_decimal, push_range};

verus! {

// ---------------------------------------------------------------------------
// Byte counts
// ---------------------------------------------------------------------------

/// `1024^u`, the size of one of unit `u`.
pub open spec fn unit_scale(u: nat) -> nat {
    if u == 0 {
        1
    } else if u == 1 {
        1024
    } else if u == 2 {
        1048576
    } else if u == 3 {
        1073741824
    } else {
        1099511627776
    }
}

/// The largest unit, up to terabytes, of which `bytes` holds at least one.
pub open spec fn byte_unit(bytes: nat) -> nat {
    if bytes >= unit_scale(4) {
        4
    } else if bytes >= unit_scale(3) {
        3
    } else if bytes >= unit_scale(2) {
        2
    } else if bytes >= unit_scale(1) {
        1
    } else {
        0
    }
}

pub open spec fn unit_name(u: nat) -> Seq<char> {
    if u == 0 {
        "B"@
    } else if u == 1 {
        "KB"@
    } else if u == 2 {
        "MB"@
    } else if u == 3 {
        "GB"@
    } else {
        "TB"@
    }
}

/// `n / d` rounded to the nearest integer, ties to the even one.
pub open spec fn div_round_even(n: nat, d: nat) -> nat
    recommends
        d > 0,
{
    let q = n / d;
    let r = n % d;
    if 2 * r > d {
        q + 1
    } else if 2 * r < d {
        q
    } else if q % 2 == 0 {
        q
    } else {
        q + 1
    }
}

/// The spacing of `f64` values around `b`: 1 below `2^53`, doubling with each further
/// binary digit.
pub open spec fn f64_spacing(b: nat) -> nat
    decreases b,
{
    if b < 0x20_0000_0000_0000 {
        1
    } else {
        2 * f64_spacing(b / 2)
    }
}

/// `b as f64`: the nearest `f64`, ties to the one with an even last digit.
pub open spec fn as_f64(b: nat) -> nat {
    let s = f64_spacing(b);
    div_round_even(b, s) * s
}

/// `bytes` in its unit, to tenths, as `{:.1}` prints `bytes as f64` divided by the unit.
pub open spec fn tenths(bytes: nat) -> nat {
    div_round_even(as_f64(bytes) * 10, unit_scale(byte_unit(bytes)))
}

/// The text of `format_bytes`: whole bytes below one kilobyte, otherwise the value in
/// the largest unit up to terabytes with one decimal.
pub open spec fn bytes_text(bytes: nat) -> Seq<char> {
    let u = byte_unit(bytes);
    if u == 0 {
        decimal(bytes) + " "@ + unit_name(0)
    } else {
        let t = tenths(bytes);
        decimal(t / 10) + "."@ + decimal(t % 10) + " "@ + unit_name(u)
    }
}

fn unit_name_str(u: u64) -> (r: &'static str)
    ensures
        r@ == unit_name(u as nat),
{
    if u == 0 {
        "B"
    } else if u == 1 {
        "KB"
    } else if u == 2 {
        "MB"
    } else if u == 3 {
        "GB"
    } else {
        "TB"
    }
}

fn div_round_even_exec(n: u128, d: u128) -> (r: u128)
    requires
        d > 0,
        n < 0x8000_0000_0000_0000_0000_0000_0000_0000u128,
        d < 0x8000_0000_0000_0000_0000_0000_0000_0000u128,
    ensures
        r == div_round_even(n as nat, d as nat),
{
    let q = n / d;
    let r = n % d;
    if 2 * r > d {
        q + 1
    } else if 2 * r < d {
        q
    } else if q % 2 == 0 {
        q
    } else {
        q + 1
    }
}

proof fn lemma_spacing_bounds(b: nat)
    ensures
        f64_spacing(b) >= 1,
        f64_spacing(b) == 1 || f64_spacing(b) * 0x10_0000_0000_0000 <= b,
        b < 0x1_0000_0000_0000_0000 ==> f64_spacing(b) < 0x1000,
    decreases b,
{
    if b >= 0x20_0000_0000_0000 {
        lemma_spacing_bounds(b / 2);
    }
}

fn f64_spacing_exec(b: u64) -> (r: u64)
    ensures
        r == f64_spacing(b as nat),
        1 <= r < 0x1000,
    decreases b,
{
    proof {
        lemma_spacing_bounds(b as nat);
    }
    if b < 0x20_0000_0000_0000 {
        1
    } else {
        2 * f64_spacing_exec(b / 2)
    }
}

proof fn lemma_div_mul_le(b: nat, s: nat)
    requires
        s >= 1,
    ensures
        (b / s) * s <= b,
        (b / s + 1) * s <= b + s,
{
    assert((b / s) * s <= b) by (nonlinear_arith)
        requires
            s >= 1,
    ;
    assert((b / s + 1) * s == (b / s) * s + s) by (nonlinear_arith);
}

proof fn lemma_round_le(n: nat, d: nat)
    requires
        d >= 1,
    ensures
        div_round_even(n, d) <= n / d + 1,
        div_round_even(n, d) * d <= n + d,
{
    lemma_div_mul_le(n, d);
    let r = div_round_even(n, d);
    assert(r * d <= (n / d + 1) * d) by (nonlinear_arith)
        requires
            r <= n / d + 1,
            d >= 1,
    ;
}

/// The text for a byte count: `512 B`, `1.5 KB`, `2.0 GB`, up to terabytes.
pub fn format_bytes(bytes: u64) -> (r: String)
    ensures
        r@ == bytes_text(bytes as nat),
{
    let mut s = String::new();
    let u: u64 = if bytes >= 1099511627776 {
        4
    } else if bytes >= 1073741824 {
        3
    } else if bytes >= 1048576 {
        2
    } else if bytes >= 1024 {
        1
    } else {
        0
    };
    if u == 0 {
        push_decimal(&mut s, bytes);
        s.append(" ");
        s.append(unit_name_str(u));
        return s;
    }
    let scale: u128 = if u == 1 {
        1024
    } else if u == 2 {
        1048576
    } else if u == 3 {
        1073741824
    } else {
        1099511627776
    };
    let sp = f64_spacing_exec(bytes);
    let q = div_round_even_exec(bytes as u128, sp as u128);
    proof {
        lemma_round_le(bytes as nat, sp as nat);
    }
    let f = q * sp as u128;
    assert(f == as_f64(bytes as nat));
    let t = div_round_even_exec(f * 10, scale);
    proof {
        lemma_round_le((f * 10) as nat, scale as nat);
        assert((f * 10) as nat / scale as nat <= (f * 10) as nat / 1024) by (nonlinear_arith)
            requires
                scale >= 1024,
        ;
        assert(u == byte_unit(bytes as nat));
        assert(scale == unit_scale(u as nat));
    }
    push_decimal(&mut s, (t / 10) as u64);
    s.append(".");
    push_decimal(&mut s, (t % 10) as u64);
    s.append(" ");
    s.append(unit_name_str(u));
    s
}

// ---------------------------------------------------------------------------
// Shortening and combining
// ---------------------------------------------------------------------------

/// `s` unchanged when it has at most `max_len` characters; otherwise its first
/// `max_len - 3` characters (none when `max_len < 3`) followed by `...`.
pub open spec fn truncated(s: Seq<char>, max_len: nat) -> Seq<char> {
    if s.len() <= max_len {
        s
    } else {
        s.take(if max_len >= 3 {
            max_len - 3
        } else {
            0
        }) + "..."@
    }
}

/// Shortens `value` to at most `max_len` characters, marking the cut with `...`.
pub fn truncate(value: &str, max_len: usize) -> (r: String)
    ensures
        r@ == truncated(value@, max_len as nat),
{
    let v = chars_of(value);
    if v.len() <= max_len {
        let mut s = String::new();
        push_range(&mut s, &v, 0, v.len());
        assert(v@.subrange(0, v@.len() as int) =~= v@);
        return s;
    }
    let keep = max_len.saturating_sub(3);
    let mut s = String::new();
    push_range(&mut s, &v, 0, keep);
    s.append("...");
    assert(v@.subrange(0, keep as int) =~= v@.take(keep as int));
    s
}

/// The text of `format_gpu_budget`: `used / budget` when there is a budget.
pub open spec fn gpu_budget_text(used: nat, budget: nat) -> Seq<char> {
    if budget > 0 {
        bytes_text(used) + " / "@ + bytes_text(budget)
    } else {
        bytes_text(used)
    }
}

/// Memory used against the budget the adapter reports, or the usage alone without one.
pub fn format_gpu_budget(used: u64, budget: u64) -> (r: String)
    ensures
        r@ == gpu_budget_text(used as nat, budget as nat),
{
    if budget > 0 {
        let mut s = format_bytes(used);
        s.append(" / ");
        let b = format_bytes(budget);
        s.append(b.as_str());
        s
    } else {
        format_bytes(used)
    }
}

/// With room for the marker, a shortened text never exceeds `max_len` characters.
pub proof fn lemma_truncated_fits(s: Seq<char>, max_len: nat)
    requires
        max_len >= 3,
    ensures
        truncated(s, max_len).len() <= max_len,
        s.len() <= max_len ==> truncated(s, max_len) == s,
{
    reveal_strlit("...");
}

} // verus!
