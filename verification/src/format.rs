//! Decimal and binary-prefixed rendering of byte counts.
//!
//! A count below 1024 is shown as bare bytes (`"1B"`); anything larger is
//! scaled by the largest binary prefix that fits and shown with one decimal
//! digit, rounded to the nearest tenth (`"1.0 KiB"`, `"2.5 GiB"`). An exact
//! half rounds to the even tenth, as the standard library renders such
//! values (1280 bytes are `"1.2 KiB"`, 1792 are `"1.8 KiB"`).

use vstd::arithmetic::div_mod::lemma_div_is_ordered;
use vstd::arithmetic::div_mod::lemma_fundamental_div_mod;
use vstd::arithmetic::div_mod::lemma_hoist_over_denominator;
use vstd::prelude::*;
use vstd::string::StringExecFns;

verus! {

/// The character for one decimal digit.
pub open spec fn digit_char(d: int) -> char {
    if d == 0 {
        '0'
    } else if d == 1 {
        '1'
    } else if d == 2 {
        '2'
    } else if d == 3 {
        '3'
    } else if d == 4 {
        '4'
    } else if d == 5 {
        '5'
    } else if d == 6 {
        '6'
    } else if d == 7 {
        '7'
    } else if d == 8 {
        '8'
    } else {
        '9'
    }
}

/// The decimal digits of `n`, most significant first, no leading zeros
/// (except for `n == 0` itself).
pub open spec fn spec_dec(n: nat) -> Seq<char>
    decreases n,
{
    if n < 10 {
        seq![digit_char(n as int)]
    } else {
        spec_dec(n / 10).push(digit_char((n % 10) as int))
    }
}

/// `1024^k`.
pub open spec fn pow1024(k: nat) -> int
    decreases k,
{
    if k == 0 {
        1
    } else {
        1024 * pow1024((k - 1) as nat)
    }
}

/// The binary-prefix exponent used for `n >= 1024`: the largest `k` with
/// `1024^k <= n`, capped at 6 (`u64` never needs more).
pub open spec fn bin_exp(n: u64) -> nat {
    if n < pow1024(2) {
        1
    } else if n < pow1024(3) {
        2
    } else if n < pow1024(4) {
        3
    } else if n < pow1024(5) {
        4
    } else if n < pow1024(6) {
        5
    } else {
        6
    }
}

/// The letter of the binary prefix with exponent `k`.
pub open spec fn prefix_char(k: nat) -> char {
    if k == 1 {
        'K'
    } else if k == 2 {
        'M'
    } else if k == 3 {
        'G'
    } else if k == 4 {
        'T'
    } else if k == 5 {
        'P'
    } else {
        'E'
    }
}

/// `n / 1024^k` in tenths, rounded to the nearest tenth; an exact half
/// rounds to the even tenth.
pub open spec fn spec_tenths(n: u64, k: nat) -> int {
    let d = pow1024(k);
    let t = (10 * n) / d;
    let r = (10 * n) % d;
    if 2 * r > d {
        t + 1
    } else if 2 * r < d {
        t
    } else if t % 2 == 0 {
        t
    } else {
        t + 1
    }
}

/// The binary-prefixed rendering of a byte count.
pub open spec fn spec_format_bytes(n: u64) -> Seq<char> {
    if n < 1024 {
        spec_dec(n as nat) + seq!['B']
    } else {
        let k = bin_exp(n);
        let t = spec_tenths(n, k);
        spec_dec((t / 10) as nat) + seq!['.', digit_char(t % 10), ' ', prefix_char(k), 'i', 'B']
    }
}

/// The one-character string for a decimal digit.
fn digit_str(d: u64) -> (r: &'static str)
    requires
        d < 10,
    ensures
        r@ =~= seq![digit_char(d as int)],
{
    proof {
        reveal_strlit("0");
        reveal_strlit("1");
        reveal_strlit("2");
        reveal_strlit("3");
        reveal_strlit("4");
        reveal_strlit("5");
        reveal_strlit("6");
        reveal_strlit("7");
        reveal_strlit("8");
        reveal_strlit("9");
    }
    if d == 0 {
        "0"
    } else if d == 1 {
        "1"
    } else if d == 2 {
        "2"
    } else if d == 3 {
        "3"
    } else if d == 4 {
        "4"
    } else if d == 5 {
        "5"
    } else if d == 6 {
        "6"
    } else if d == 7 {
        "7"
    } else if d == 8 {
        "8"
    } else {
        "9"
    }
}

/// Append the decimal digits of `n` to `s`.
fn push_dec(n: u64, s: &mut String)
    ensures
        final(s)@ == old(s)@ + spec_dec(n as nat),
    decreases n,
{
    if n >= 10 {
        push_dec(n / 10, s);
    }
    let ghost mid = s@;
    let d = digit_str(n % 10);
    s.append(d);
    proof {
        if n < 10 {
            assert(s@ =~= old(s)@ + spec_dec(n as nat));
        } else {
            assert(mid == old(s)@ + spec_dec((n / 10) as nat));
            assert(s@ =~= old(s)@ + spec_dec(n as nat));
        }
    }
}

/// The decimal rendering of `n`.
pub fn u64_to_string(n: u64) -> (r: String)
    ensures
        r@ == spec_dec(n as nat),
{
    let mut s = String::new();
    push_dec(n, &mut s);
    proof {
        assert(Seq::<char>::empty() + spec_dec(n as nat) =~= spec_dec(n as nat));
    }
    s
}

/// The one-character string of the binary prefix with exponent `k`.
fn prefix_str(k: u64) -> (r: &'static str)
    requires
        1 <= k <= 6,
    ensures
        r@ =~= seq![prefix_char(k as nat)],
{
    proof {
        reveal_strlit("K");
        reveal_strlit("M");
        reveal_strlit("G");
        reveal_strlit("T");
        reveal_strlit("P");
        reveal_strlit("E");
    }
    if k == 1 {
        "K"
    } else if k == 2 {
        "M"
    } else if k == 3 {
        "G"
    } else if k == 4 {
        "T"
    } else if k == 5 {
        "P"
    } else {
        "E"
    }
}

/// The first seven powers of 1024, spelled out.
proof fn lemma_pow1024_values()
    ensures
        pow1024(0) == 1,
        pow1024(1) == 0x400,
        pow1024(2) == 0x100000,
        pow1024(3) == 0x40000000,
        pow1024(4) == 0x10000000000,
        pow1024(5) == 0x4000000000000,
        pow1024(6) == 0x1000000000000000,
{
    assert(pow1024(0) == 1);
    assert(pow1024(1) == 0x400);
    assert(pow1024(2) == 0x100000);
    assert(pow1024(3) == 0x40000000);
    assert(pow1024(4) == 0x10000000000);
    assert(pow1024(5) == 0x4000000000000);
    assert(pow1024(6) == 0x1000000000000000);
}

/// A `k` bracketed by `1024^k <= n < 1024^(k+1)` (or `k == 6` with
/// `1024^6 <= n`) is exactly the exponent `bin_exp` picks.
proof fn lemma_bin_exp_of(n: u64, k: u64)
    requires
        1 <= k <= 6,
        pow1024(k as nat) <= n,
        k < 6 ==> n < pow1024((k + 1) as nat),
    ensures
        bin_exp(n) == k as nat,
{
    lemma_pow1024_values();
}

/// Render `n` bytes with a binary prefix: bare bytes below 1024, otherwise
/// scaled by the largest fitting power of 1024 and rounded to one decimal
/// digit.
pub fn bytes_len_to_string_prefix(n: u64) -> (r: String)
    ensures
        r@ == spec_format_bytes(n),
{
    if n < 1024 {
        let mut s = u64_to_string(n);
        s.append("B");
        proof {
            reveal_strlit("B");
            assert(s@ =~= spec_format_bytes(n));
        }
        return s;
    }
    let mut k: u64 = 1;
    let mut d: u64 = 1024;
    proof {
        lemma_pow1024_values();
    }
    while k < 6 && n / d >= 1024
        invariant
            1 <= k <= 6,
            1024 <= d,
            d == pow1024(k as nat),
            d <= n,
            1024 <= n,
        decreases 6 - k,
    {
        proof {
            lemma_fundamental_div_mod(n as int, d as int);
            assert(1024 * (d as int) <= n as int) by (nonlinear_arith)
                requires
                    d >= 1,
                    (n as int) / (d as int) >= 1024,
                    (n as int) == (d as int) * ((n as int) / (d as int)) + (n as int) % (d as int),
                    (n as int) % (d as int) >= 0,
            ;
        }
        d = d * 1024;
        k = k + 1;
    }
    proof {
        if k < 6 {
            lemma_fundamental_div_mod(n as int, d as int);
            assert(n < 1024 * (d as int)) by (nonlinear_arith)
                requires
                    d >= 1,
                    (n as int) / (d as int) < 1024,
                    (n as int) == (d as int) * ((n as int) / (d as int)) + (n as int) % (d as int),
                    (n as int) % (d as int) < d,
            ;
        }
        lemma_bin_exp_of(n, k);
    }
    let q = n / d;
    let rem = n % d;
    proof {
        lemma_pow1024_values();
        if k < 6 {
            assert(q < 1024);
        } else {
            assert(d == 0x1000000000000000);
            lemma_div_is_ordered(n as int, 0xFFFFFFFFFFFFFFFF, d as int);
            assert(0xFFFFFFFFFFFFFFFF as int / 0x1000000000000000 as int == 15);
            assert(q < 16);
        }
    }
    let frac_num = 10 * rem;
    let ghost di = d as int;
    proof {
        assert((frac_num as int) / di <= 9) by (nonlinear_arith)
            requires
                di >= 1,
                frac_num < 10 * di,
        ;
    }
    let tf = frac_num / d;
    let r2 = frac_num % d;
    let base = 10 * q + tf;
    proof {
        lemma_fundamental_div_mod(n as int, di);
        assert(10 * (n as int) == (frac_num as int) + (10 * (q as int)) * di)
            by (nonlinear_arith)
            requires
                (n as int) == di * (q as int) + (rem as int),
                (frac_num as int) == 10 * (rem as int),
        ;
        lemma_hoist_over_denominator(frac_num as int, 10 * (q as int), d as nat);
        assert(base as int == (10 * (n as int)) / di);
        assert((di * (10 * (q as int)) + frac_num as int) % di == (frac_num as int) % di) by {
            vstd::arithmetic::div_mod::lemma_mod_multiples_vanish(
                10 * (q as int),
                frac_num as int,
                di,
            );
        }
        assert(r2 as int == (10 * (n as int)) % di);
    }
    let tenths = if 2 * r2 > d {
        base + 1
    } else if 2 * r2 < d {
        base
    } else if base % 2 == 0 {
        base
    } else {
        base + 1
    };
    proof {
        assert(tenths as int == spec_tenths(n, k as nat));
    }
    let whole = tenths / 10;
    let fr = tenths % 10;
    let mut s = u64_to_string(whole);
    s.append(".");
    s.append(digit_str(fr));
    s.append(" ");
    s.append(prefix_str(k));
    s.append("iB");
    proof {
        reveal_strlit(".");
        reveal_strlit(" ");
        reveal_strlit("iB");
        assert(s@ =~= spec_format_bytes(n));
    }
    s
}

} // verus!
