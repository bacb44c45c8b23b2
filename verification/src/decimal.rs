//! Exact conversion of unsigned base-unit amounts (wei, satoshis, sun) to
//! decimal display strings, using integer arithmetic only.
//!
//! Two formatting policies exist, both taken from the chain clients'
//! observable output:
//! - trimmed: no fractional part when it is zero, and trailing zeros of the
//!   fraction stripped (EVM chains);
//! - fixed: always exactly `decimals` fractional digits (Bitcoin, Tron).

use vstd::prelude::*;

use crate::strutil::append_digit;
use crate::strutil::digit_char;
use crate::strutil::digit_val;
use crate::strutil::is_dec_digit;
use crate::strutil::push_char;

verus! {

/// Ten to the power `e`.
pub open spec fn pow10(e: nat) -> nat
    decreases e,
{
    if e == 0 {
        1
    } else {
        10 * pow10((e - 1) as nat)
    }
}

pub proof fn lemma_pow10_pos(e: nat)
    ensures
        pow10(e) >= 1,
    decreases e,
{
    if e > 0 {
        lemma_pow10_pos((e - 1) as nat);
    }
}

pub proof fn lemma_pow10_add(a: nat, b: nat)
    ensures
        pow10(a + b) == pow10(a) * pow10(b),
    decreases a,
{
    if a == 0 {
        assert(pow10(0nat) == 1);
        assert(pow10(a + b) == pow10(b));
    } else {
        lemma_pow10_add((a - 1) as nat, b);
        assert(pow10(a + b) == 10 * pow10((a - 1) as nat + b));
        assert(10 * (pow10((a - 1) as nat) * pow10(b)) == (10 * pow10((a - 1) as nat)) * pow10(b))
            by (nonlinear_arith);
        assert(pow10(a) == 10 * pow10((a - 1) as nat));
        assert(pow10(a + b) == 10 * (pow10((a - 1) as nat) * pow10(b)));
        assert(pow10(a + b) == pow10(a) * pow10(b));
    }
}

pub proof fn lemma_pow10_mono(a: nat, b: nat)
    requires
        a <= b,
    ensures
        pow10(a) <= pow10(b),
{
    lemma_pow10_add(a, (b - a) as nat);
    lemma_pow10_pos((b - a) as nat);
    lemma_pow10_pos(a);
    assert(pow10(a) * 1 <= pow10(a) * pow10((b - a) as nat)) by (nonlinear_arith)
        requires
            pow10((b - a) as nat) >= 1,
            pow10(a) >= 1,
    ;
    assert(pow10(a) * pow10((b - a) as nat) == pow10(a + (b - a) as nat));
}

/// The decimal digit string of `n`, most significant digit first;
/// `"0"` for zero, and no leading zeros otherwise.
pub open spec fn dec_str(n: nat) -> Seq<char>
    decreases n,
{
    if n < 10 {
        seq![digit_char(n)]
    } else {
        dec_str(n / 10).push(digit_char(n % 10))
    }
}

/// The number a decimal digit string denotes.
pub open spec fn parse_dec(s: Seq<char>) -> nat
    decreases s.len(),
{
    if s.len() == 0 {
        0
    } else {
        parse_dec(s.drop_last()) * 10 + digit_val(s.last())
    }
}

/// `k` zero characters.
pub open spec fn zeros(k: nat) -> Seq<char> {
    Seq::new(k, |i: int| '0')
}

/// `s` left-padded with zeros up to width `w` (identity when already wide enough).
pub open spec fn pad_left(s: Seq<char>, w: nat) -> Seq<char> {
    if s.len() >= w {
        s
    } else {
        zeros((w - s.len()) as nat) + s
    }
}

/// `s` with its trailing zero characters removed.
pub open spec fn trim_zeros(s: Seq<char>) -> Seq<char>
    decreases s.len(),
{
    if s.len() == 0 {
        s
    } else if s.last() == '0' {
        trim_zeros(s.drop_last())
    } else {
        s
    }
}

/// The decimal string for `r` base units at `d` decimals, trailing zeros
/// trimmed: `"0"` for zero, the plain whole part when the fraction is zero,
/// and `"{whole}.{fraction}"` otherwise.
pub open spec fn spec_decimal_trimmed(r: nat, d: nat) -> Seq<char> {
    if r == 0 {
        seq!['0']
    } else {
        let w = r / pow10(d);
        let f = r % pow10(d);
        if f == 0 {
            dec_str(w)
        } else {
            dec_str(w) + seq!['.'] + trim_zeros(pad_left(dec_str(f), d))
        }
    }
}

/// The decimal string for `r` base units at `d` decimals with exactly `d`
/// fractional digits (the whole digit string alone when `d` is zero).
pub open spec fn spec_decimal_fixed(r: nat, d: nat) -> Seq<char> {
    if d == 0 {
        dec_str(r)
    } else {
        dec_str(r / pow10(d)) + seq!['.'] + pad_left(dec_str(r % pow10(d)), d)
    }
}

proof fn lemma_pow10_u128_bounds()
    ensures
        pow10(38) == 100000000000000000000000000000000000000,
        pow10(39) == 1000000000000000000000000000000000000000,
{
    assert(pow10(0) == 1);
    assert(pow10(1) == 10);
    assert(pow10(2) == 100);
    assert(pow10(3) == 1000);
    assert(pow10(4) == 10000);
    assert(pow10(5) == 100000);
    assert(pow10(6) == 1000000);
    assert(pow10(7) == 10000000);
    assert(pow10(8) == 100000000);
    assert(pow10(9) == 1000000000);
    assert(pow10(10) == 10000000000);
    assert(pow10(11) == 100000000000);
    assert(pow10(12) == 1000000000000);
    assert(pow10(13) == 10000000000000);
    assert(pow10(14) == 100000000000000);
    assert(pow10(15) == 1000000000000000);
    assert(pow10(16) == 10000000000000000);
    assert(pow10(17) == 100000000000000000);
    assert(pow10(18) == 1000000000000000000);
    assert(pow10(19) == 10000000000000000000);
    assert(pow10(20) == 100000000000000000000);
    assert(pow10(21) == 1000000000000000000000);
    assert(pow10(22) == 10000000000000000000000);
    assert(pow10(23) == 100000000000000000000000);
    assert(pow10(24) == 1000000000000000000000000);
    assert(pow10(25) == 10000000000000000000000000);
    assert(pow10(26) == 100000000000000000000000000);
    assert(pow10(27) == 1000000000000000000000000000);
    assert(pow10(28) == 10000000000000000000000000000);
    assert(pow10(29) == 100000000000000000000000000000);
    assert(pow10(30) == 1000000000000000000000000000000);
    assert(pow10(31) == 10000000000000000000000000000000);
    assert(pow10(32) == 100000000000000000000000000000000);
    assert(pow10(33) == 1000000000000000000000000000000000);
    assert(pow10(34) == 10000000000000000000000000000000000);
    assert(pow10(35) == 100000000000000000000000000000000000);
    assert(pow10(36) == 1000000000000000000000000000000000000);
    assert(pow10(37) == 10000000000000000000000000000000000000);
    assert(pow10(38) == 100000000000000000000000000000000000000);
    assert(pow10(39) == 1000000000000000000000000000000000000000);
}

/// Ten to the power `e` as a u128; `e` must stay below the overflow bound.
pub(crate) fn pow10_u128(e: u8) -> (r: u128)
    requires
        e <= 38,
    ensures
        r as nat == pow10(e as nat),
{
    proof {
        lemma_pow10_u128_bounds();
    }
    let mut r: u128 = 1;
    let mut i: u8 = 0;
    while i < e
        invariant
            i <= e <= 38,
            r as nat == pow10(i as nat),
        decreases e - i,
    {
        proof {
            lemma_pow10_u128_bounds();
            lemma_pow10_mono((i + 1) as nat, 38);
            assert(pow10((i + 1) as nat) == 10 * pow10(i as nat));
        }
        r = r * 10;
        i = i + 1;
    }
    r
}

/// The decimal digit string of a u128, built digit by digit.
pub(crate) fn u128_to_dec_string(n: u128) -> (r: String)
    ensures
        r@ == dec_str(n as nat),
    decreases n,
{
    if n < 10 {
        let mut s = String::new();
        append_digit(&mut s, n);
        proof {
            assert(s@ =~= seq![digit_char(n as nat)]);
        }
        s
    } else {
        let q = n / 10;
        let d = n % 10;
        let mut s = u128_to_dec_string(q);
        append_digit(&mut s, d);
        s
    }
}

/// Append `k` zero characters to `s`.
fn append_zeros(s: &mut String, k: usize)
    ensures
        final(s)@ == old(s)@ + zeros(k as nat),
{
    let mut i: usize = 0;
    while i < k
        invariant
            i <= k,
            s@ == old(s)@ + zeros(i as nat),
        decreases k - i,
    {
        push_char(s, '0');
        proof {
            assert(old(s)@ + zeros(i as nat) + seq!['0'] =~= old(s)@ + zeros((i + 1) as nat));
            assert((old(s)@ + zeros(i as nat)).push('0') =~= old(s)@ + zeros(i as nat)
                + seq!['0']);
        }
        i = i + 1;
    }
    proof {
        assert(s@ =~= old(s)@ + zeros(k as nat));
    }
}

/// Every decimal digit string of `n` below ten to the `d` fits in `d` digits.
proof fn lemma_dec_str_len(n: nat, d: nat)
    requires
        n < pow10(d),
        d >= 1,
    ensures
        dec_str(n).len() <= d,
    decreases n,
{
    if n < 10 {
    } else {
        assert(pow10(d) == 10 * pow10((d - 1) as nat));
        assert(n / 10 < pow10((d - 1) as nat)) by (nonlinear_arith)
            requires
                n < 10 * pow10((d - 1) as nat),
                n >= 10,
        ;
        assert(pow10((d - 1) as nat) > 1) by {
            lemma_pow10_pos((d - 1) as nat);
            assert(n / 10 >= 1) by (nonlinear_arith)
                requires
                    n >= 10,
            ;
        }
        assert(d >= 2) by {
            if d == 1 {
                assert(pow10(1nat) == 10);
            }
        }
        lemma_dec_str_len(n / 10, (d - 1) as nat);
    }
}

/// The fraction `f`, zero-padded on the left to exactly `d` digits.
fn padded_fraction(f: u128, d: u8) -> (r: String)
    requires
        1 <= d,
        (f as nat) < pow10(d as nat),
    ensures
        r@ == pad_left(dec_str(f as nat), d as nat),
        r@.len() == d as nat,
{
    let fs = u128_to_dec_string(f);
    let len = fs.as_str().unicode_len();
    proof {
        lemma_dec_str_len(f as nat, d as nat);
    }
    let mut s = String::new();
    append_zeros(&mut s, (d as usize) - len);
    let r = s.concat(fs.as_str());
    proof {
        assert(r@ =~= pad_left(dec_str(f as nat), d as nat));
    }
    r
}

/// A copy of `s` with its trailing zero characters removed.
fn trimmed_string(s: &String) -> (r: String)
    ensures
        r@ == trim_zeros(s@),
{
    let n = s.as_str().unicode_len();
    let mut m = n;
    proof {
        assert(s@.subrange(0, n as int) =~= s@);
    }
    loop
        invariant
            m <= n == s@.len(),
            trim_zeros(s@.subrange(0, m as int)) == trim_zeros(s@),
        ensures
            m <= n,
            trim_zeros(s@.subrange(0, m as int)) == trim_zeros(s@),
            m == 0 || s@[m - 1] != '0',
        decreases m,
    {
        if m == 0 {
            break ;
        }
        let c = s.as_str().get_char(m - 1);
        if c != '0' {
            break ;
        }
        proof {
            assert(s@.subrange(0, m as int).drop_last() =~= s@.subrange(0, m - 1));
            assert(s@.subrange(0, m as int).last() == '0');
        }
        m = m - 1;
    }
    proof {
        if m > 0 {
            assert(s@.subrange(0, m as int).last() == s@[m - 1]);
            assert(trim_zeros(s@.subrange(0, m as int)) == s@.subrange(0, m as int));
        } else {
            assert(s@.subrange(0, 0) =~= Seq::<char>::empty());
        }
    }
    let t = s.as_str().substring_char(0, m);
    String::from_str(t)
}

/// Convert `raw` base units at `decimals` decimals to a decimal string,
/// trimming the fractional part: `"0"` for zero, no fractional part when it
/// is zero, no trailing fractional zeros otherwise.
pub fn to_decimal_string(raw: u128, decimals: u8) -> (r: String)
    ensures
        r@ == spec_decimal_trimmed(raw as nat, decimals as nat),
{
    if raw == 0 {
        proof {
            reveal_strlit("0");
        }
        let z = String::from_str("0");
        proof {
            assert(z@ =~= seq!['0']);
        }
        return z;
    }
    let whole: u128;
    let frac: u128;
    if decimals <= 38 {
        let p = pow10_u128(decimals);
        proof {
            lemma_pow10_pos(decimals as nat);
        }
        whole = raw / p;
        frac = raw % p;
    } else {
        proof {
            lemma_pow10_u128_bounds();
            lemma_pow10_mono(39, decimals as nat);
            assert((raw as nat) < pow10(decimals as nat));
            vstd::arithmetic::div_mod::lemma_small_mod(raw as nat, pow10(decimals as nat));
        }
        whole = 0;
        frac = raw;
        proof {
            assert((raw as nat) / pow10(decimals as nat) == 0) by {
                vstd::arithmetic::div_mod::lemma_basic_div(
                    raw as int,
                    pow10(decimals as nat) as int,
                );
            }
        }
    }
    if frac == 0 {
        u128_to_dec_string(whole)
    } else {
        let w = u128_to_dec_string(whole);
        proof {
            if decimals as nat == 0 {
                assert(pow10(0nat) == 1);
                assert((frac as nat) < 1);
            }
        }
        let pf = padded_fraction(frac, decimals);
        let t = trimmed_string(&pf);
        proof {
            reveal_strlit(".");
        }
        let r = w.concat(".").concat(t.as_str());
        proof {
            assert(("."@) =~= seq!['.']);
            assert(r@ =~= dec_str((raw as nat) / pow10(decimals as nat)) + seq!['.'] + trim_zeros(
                pad_left(dec_str((raw as nat) % pow10(decimals as nat)), decimals as nat),
            ));
        }
        r
    }
}

/// Convert `raw` base units at `decimals` decimals to a decimal string with
/// exactly `decimals` fractional digits.
pub fn to_fixed_decimal_string(raw: u64, decimals: u8) -> (r: String)
    ensures
        r@ == spec_decimal_fixed(raw as nat, decimals as nat),
{
    if decimals == 0 {
        return u128_to_dec_string(raw as u128);
    }
    let whole: u128;
    let frac: u128;
    let big = raw as u128;
    if decimals <= 38 {
        let p = pow10_u128(decimals);
        proof {
            lemma_pow10_pos(decimals as nat);
        }
        whole = big / p;
        frac = big % p;
    } else {
        proof {
            lemma_pow10_u128_bounds();
            lemma_pow10_mono(39, decimals as nat);
            assert((big as nat) < pow10(decimals as nat));
            vstd::arithmetic::div_mod::lemma_small_mod(big as nat, pow10(decimals as nat));
            assert((big as nat) / pow10(decimals as nat) == 0) by {
                vstd::arithmetic::div_mod::lemma_basic_div(
                    big as int,
                    pow10(decimals as nat) as int,
                );
            }
        }
        whole = 0;
        frac = big;
    }
    let w = u128_to_dec_string(whole);
    let pf = padded_fraction(frac, decimals);
    proof {
        reveal_strlit(".");
    }
    let r = w.concat(".").concat(pf.as_str());
    proof {
        assert(("."@) =~= seq!['.']);
        assert(r@ =~= spec_decimal_fixed(raw as nat, decimals as nat));
    }
    r
}

/// Convert an amount of wei to an ETH decimal string (18 decimals, trimmed).
pub fn wei_to_eth(wei: u128) -> (r: String)
    ensures
        r@ == spec_decimal_trimmed(wei as nat, 18),
{
    to_decimal_string(wei, 18)
}

/// The index of the first `'.'` in `s`, or `-1` when there is none.
pub open spec fn find_dot(s: Seq<char>) -> int
    decreases s.len(),
{
    if s.len() == 0 {
        -1
    } else if s[0] == '.' {
        0
    } else {
        let r = find_dot(s.subrange(1, s.len() as int));
        if r < 0 {
            -1
        } else {
            r + 1
        }
    }
}

/// The rational value of a decimal string `"whole"` or `"whole.fraction"`,
/// scaled by ten to the `d`: whole * 10^d + fraction * 10^(d - |fraction|).
pub open spec fn scaled_value(s: Seq<char>, d: nat) -> nat {
    let i = find_dot(s);
    if i < 0 {
        parse_dec(s) * pow10(d)
    } else {
        let whole = s.subrange(0, i);
        let frac = s.subrange(i + 1, s.len() as int);
        parse_dec(whole) * pow10(d) + parse_dec(frac) * pow10((d - frac.len()) as nat)
    }
}

proof fn lemma_dec_str_digits(n: nat)
    ensures
        forall|i: int| 0 <= i < dec_str(n).len() ==> is_dec_digit(#[trigger] dec_str(n)[i]),
    decreases n,
{
    if n < 10 {
        assert(dec_str(n) == seq![digit_char(n)]);
        assert(dec_str(n)[0] == digit_char(n));
        assert(is_dec_digit(digit_char(n)));
    } else {
        lemma_dec_str_digits(n / 10);
        let s = dec_str(n / 10);
        let c = digit_char(n % 10);
        assert(is_dec_digit(c));
        assert(forall|i: int|
            0 <= i < s.push(c).len() ==> #[trigger] s.push(c)[i] == if i < s.len() {
                s[i]
            } else {
                c
            });
    }
}

proof fn lemma_parse_dec_str(n: nat)
    ensures
        parse_dec(dec_str(n)) == n,
    decreases n,
{
    if n < 10 {
        assert(dec_str(n).drop_last() =~= Seq::<char>::empty());
        assert(parse_dec(Seq::<char>::empty()) == 0);
        assert(dec_str(n).last() == digit_char(n));
        assert(digit_val(digit_char(n)) == n);
    } else {
        lemma_parse_dec_str(n / 10);
        let s = dec_str(n / 10);
        let c = digit_char(n % 10);
        assert(s.push(c).drop_last() =~= s);
        assert(s.push(c).last() == c);
        assert(digit_val(c) == n % 10);
        assert(parse_dec(dec_str(n)) == (n / 10) * 10 + n % 10);
        vstd::arithmetic::div_mod::lemma_fundamental_div_mod(n as int, 10);
    }
}

proof fn lemma_parse_zeros(k: nat)
    ensures
        parse_dec(zeros(k)) == 0,
    decreases k,
{
    if k == 0 {
        assert(zeros(0).len() == 0);
    } else {
        assert(zeros(k).drop_last() =~= zeros((k - 1) as nat));
        assert(zeros(k).last() == '0');
        lemma_parse_zeros((k - 1) as nat);
    }
}

proof fn lemma_parse_leading_zeros(k: nat, s: Seq<char>)
    ensures
        parse_dec(zeros(k) + s) == parse_dec(s),
    decreases s.len(),
{
    if s.len() == 0 {
        assert(zeros(k) + s =~= zeros(k));
        lemma_parse_zeros(k);
    } else {
        assert((zeros(k) + s).drop_last() =~= zeros(k) + s.drop_last());
        assert((zeros(k) + s).last() == s.last());
        lemma_parse_leading_zeros(k, s.drop_last());
    }
}

proof fn lemma_trim_parse(s: Seq<char>)
    ensures
        trim_zeros(s).len() <= s.len(),
        parse_dec(trim_zeros(s)) * pow10((s.len() - trim_zeros(s).len()) as nat) == parse_dec(s),
    decreases s.len(),
{
    if s.len() == 0 {
        assert(trim_zeros(s) == s);
        assert(pow10(0nat) == 1);
        assert((s.len() - trim_zeros(s).len()) as nat == 0nat);
        vstd::arithmetic::mul::lemma_mul_basics(parse_dec(s) as int);
        assert(parse_dec(trim_zeros(s)) * pow10((s.len() - trim_zeros(s).len()) as nat)
            == parse_dec(s));
    } else if s.last() == '0' {
        lemma_trim_parse(s.drop_last());
        let t = trim_zeros(s);
        let dl = s.drop_last();
        assert(trim_zeros(dl) == t);
        let k = (dl.len() - t.len()) as nat;
        assert(parse_dec(s) == parse_dec(dl) * 10);
        assert(pow10(k + 1) == pow10(k) * pow10(1)) by {
            lemma_pow10_add(k, 1);
        }
        assert(pow10(0nat) == 1);
        assert(pow10(1nat) == 10);
        assert(parse_dec(t) * (pow10(k) * 10) == (parse_dec(t) * pow10(k)) * 10)
            by (nonlinear_arith);
        assert((s.len() - t.len()) as nat == k + 1);
        assert(pow10(k + 1) == pow10(k) * 10);
        assert(parse_dec(t) * pow10(k + 1) == parse_dec(t) * (pow10(k) * 10));
        assert((parse_dec(t) * pow10(k)) * 10 == parse_dec(dl) * 10);
        assert(parse_dec(t) * pow10((s.len() - t.len()) as nat) == parse_dec(s));
    } else {
        assert(trim_zeros(s) == s);
        assert(pow10(0nat) == 1);
        assert((s.len() - trim_zeros(s).len()) as nat == 0nat);
        vstd::arithmetic::mul::lemma_mul_basics(parse_dec(s) as int);
        assert(parse_dec(trim_zeros(s)) * pow10((s.len() - trim_zeros(s).len()) as nat)
            == parse_dec(s));
    }
}

proof fn lemma_find_dot_of_joined(w: Seq<char>, f: Seq<char>)
    requires
        forall|i: int| 0 <= i < w.len() ==> w[i] != '.',
    ensures
        find_dot(w + seq!['.'] + f) == w.len(),
    decreases w.len(),
{
    let s = w + seq!['.'] + f;
    if w.len() == 0 {
        assert(s[0] == '.');
    } else {
        assert(s[0] == w[0]);
        assert(s[0] != '.');
        let rest = s.subrange(1, s.len() as int);
        assert(rest =~= w.subrange(1, w.len() as int) + seq!['.'] + f);
        lemma_find_dot_of_joined(w.subrange(1, w.len() as int), f);
    }
}

/// Round trip: the decimal string written for `r` base units at `d`
/// decimals, read back as a rational and scaled by ten to the `d`, is
/// exactly `r` — the conversion loses nothing.
pub proof fn lemma_decimal_round_trip(r: nat, d: nat)
    ensures
        scaled_value(spec_decimal_trimmed(r, d), d) == r,
{
    lemma_pow10_pos(d);
    if r == 0 {
        let s = seq!['0'];
        assert(find_dot(s) == -1) by {
            assert(s[0] != '.');
            assert(s.subrange(1, 1) =~= Seq::<char>::empty());
            assert(find_dot(Seq::<char>::empty()) == -1);
        }
        assert(s.drop_last() =~= Seq::<char>::empty());
        assert(parse_dec(Seq::<char>::empty()) == 0);
        assert(parse_dec(s) == 0);
        vstd::arithmetic::mul::lemma_mul_basics(pow10(d) as int);
        assert(parse_dec(s) * pow10(d) == 0);
    } else {
        let w = r / pow10(d);
        let f = r % pow10(d);
        vstd::arithmetic::div_mod::lemma_fundamental_div_mod(r as int, pow10(d) as int);
        if f == 0 {
            let s = dec_str(w);
            lemma_dec_str_digits(w);
            assert(find_dot(s) == -1) by {
                lemma_find_dot_no_dot(s);
            }
            lemma_parse_dec_str(w);
            assert(w * pow10(d) == pow10(d) * w) by (nonlinear_arith);
            assert(parse_dec(s) * pow10(d) == r);
        } else {
            lemma_pow10_pos(d);
            assert(f < pow10(d)) by {
                vstd::arithmetic::div_mod::lemma_mod_bound(r as int, pow10(d) as int);
            }
            assert(d >= 1) by {
                if d == 0 {
                    assert(pow10(0nat) == 1);
                }
            }
            lemma_dec_str_len(f, d);
            let fs = dec_str(f);
            let p = pad_left(fs, d);
            let t = trim_zeros(p);
            let s = dec_str(w) + seq!['.'] + t;
            lemma_dec_str_digits(w);
            lemma_dec_str_digits(f);
            assert(p.len() == d) by {
                if fs.len() < d {
                    assert(zeros((d - fs.len()) as nat).len() == d - fs.len());
                }
            }
            lemma_find_dot_of_joined(dec_str(w), t);
            let i = find_dot(s);
            assert(i == dec_str(w).len());
            assert(s.subrange(0, i) =~= dec_str(w));
            assert(s.subrange(i + 1, s.len() as int) =~= t);
            lemma_parse_dec_str(w);
            lemma_trim_parse(p);
            assert(parse_dec(p) == f) by {
                if fs.len() < d {
                    lemma_parse_leading_zeros((d - fs.len()) as nat, fs);
                }
                lemma_parse_dec_str(f);
            }
            let k = (p.len() - t.len()) as nat;
            assert(parse_dec(t) * pow10(k) == f);
            assert(t.len() <= d);
            assert((d - t.len()) as nat == k);
            assert(w * pow10(d) == pow10(d) * w) by (nonlinear_arith);
            assert(w * pow10(d) + f == r);
            assert(parse_dec(s.subrange(0, i)) * pow10(d) + parse_dec(
                s.subrange(i + 1, s.len() as int),
            ) * pow10((d - s.subrange(i + 1, s.len() as int).len()) as nat) == r);
        }
    }
}

proof fn lemma_find_dot_no_dot(s: Seq<char>)
    requires
        forall|i: int| 0 <= i < s.len() ==> s[i] != '.',
    ensures
        find_dot(s) == -1,
    decreases s.len(),
{
    if s.len() > 0 {
        lemma_find_dot_no_dot(s.subrange(1, s.len() as int));
    }
}

/// Zero is written `"0"` at every decimal count.
pub proof fn lemma_decimal_zero(d: nat)
    ensures
        spec_decimal_trimmed(0, d) == seq!['0'],
{
}

/// Ten to the `d` base units at `d` decimals is written `"1"`,
/// with no trailing fractional part.
pub proof fn lemma_decimal_one_unit(d: nat)
    ensures
        spec_decimal_trimmed(pow10(d), d) == seq!['1'],
{
    lemma_pow10_pos(d);
    vstd::arithmetic::div_mod::lemma_div_by_self(pow10(d) as int);
    vstd::arithmetic::div_mod::lemma_mod_self_0(pow10(d) as int);
    assert(dec_str(1) == seq![digit_char(1)]);
}

} // verus!
