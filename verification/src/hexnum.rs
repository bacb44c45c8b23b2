//! Parsing of `0x`-prefixed hexadecimal balance strings, as JSON-RPC servers
//! return them, into unsigned 128-bit integers.

use vstd::prelude::*;

use crate::WalletError;

verus! {

/// One more than the largest value a u128 can hold.
pub open spec fn u128_limit() -> nat {
    0x100000000000000000000000000000000nat
}

/// Whether a character is a hexadecimal digit (either case).
pub open spec fn is_hex_digit(c: char) -> bool {
    (48 <= c as u32 && c as u32 <= 57) || (97 <= c as u32 && c as u32 <= 102) || (65 <= c as u32
        && c as u32 <= 70)
}

/// The numeric value of a hexadecimal digit character (zero for any other).
pub open spec fn hex_digit_val(c: char) -> nat {
    if 48 <= c as u32 && c as u32 <= 57 {
        (c as u32 - 48) as nat
    } else if 97 <= c as u32 && c as u32 <= 102 {
        (c as u32 - 87) as nat
    } else if 65 <= c as u32 && c as u32 <= 70 {
        (c as u32 - 55) as nat
    } else {
        0
    }
}

/// The number a hexadecimal digit string denotes.
pub open spec fn parse_hex(s: Seq<char>) -> nat
    decreases s.len(),
{
    if s.len() == 0 {
        0
    } else {
        parse_hex(s.drop_last()) * 16 + hex_digit_val(s.last())
    }
}

/// `s` with one leading `"0x"` removed, when present.
pub open spec fn strip_hex_prefix(s: Seq<char>) -> Seq<char> {
    if s.len() >= 2 && s[0] == '0' && s[1] == 'x' {
        s.subrange(2, s.len() as int)
    } else {
        s
    }
}

/// A wellformed hexadecimal number: nonempty, hex digits only.
pub open spec fn is_hex_str(s: Seq<char>) -> bool {
    s.len() > 0 && (forall|i: int| 0 <= i < s.len() ==> is_hex_digit(#[trigger] s[i]))
}

proof fn lemma_parse_hex_prefix_le(s: Seq<char>, j: int)
    requires
        0 <= j <= s.len(),
    ensures
        parse_hex(s.subrange(0, j)) <= parse_hex(s),
    decreases s.len() - j,
{
    if j == s.len() {
        assert(s.subrange(0, j) =~= s);
    } else {
        lemma_parse_hex_prefix_le(s, j + 1);
        let t = s.subrange(0, j + 1);
        assert(t.drop_last() =~= s.subrange(0, j));
        assert(parse_hex(t) == parse_hex(s.subrange(0, j)) * 16 + hex_digit_val(t.last()));
        assert(parse_hex(s.subrange(0, j)) <= parse_hex(s.subrange(0, j)) * 16);
    }
}

/// Parse a hexadecimal string, with or without one `"0x"` prefix, into a
/// u128. Fails when the digits (after the prefix) are empty, when any
/// character is not a hex digit, or when the value does not fit in 128 bits.
pub fn parse_hex_to_u128(hex_str: &str) -> (r: Result<u128, WalletError>)
    ensures
        match r {
            Ok(v) => {
                &&& is_hex_str(strip_hex_prefix(hex_str@))
                &&& v as nat == parse_hex(strip_hex_prefix(hex_str@))
            },
            Err(e) => {
                &&& e == WalletError::MalformedResponse
                &&& (!is_hex_str(strip_hex_prefix(hex_str@)) || parse_hex(
                    strip_hex_prefix(hex_str@),
                ) >= u128_limit())
            },
        },
{
    let n = hex_str.unicode_len();
    let start: usize = if n >= 2 && hex_str.get_char(0) == '0' && hex_str.get_char(1) == 'x' {
        2
    } else {
        0
    };
    let ghost stripped = strip_hex_prefix(hex_str@);
    proof {
        if start == 2 {
            assert(stripped =~= hex_str@.subrange(2, n as int));
        } else {
            assert(stripped =~= hex_str@);
        }
    }
    if start == n {
        return Err(WalletError::MalformedResponse);
    }
    let mut acc: u128 = 0;
    let mut i: usize = start;
    proof {
        assert(stripped.subrange(0, 0) =~= Seq::<char>::empty());
    }
    while i < n
        invariant
            start <= i <= n == hex_str@.len(),
            start < n,
            stripped == strip_hex_prefix(hex_str@),
            stripped =~= hex_str@.subrange(start as int, n as int),
            acc as nat == parse_hex(stripped.subrange(0, i - start)),
            forall|j: int|
                0 <= j < i - start ==> is_hex_digit(#[trigger] stripped[j]),
        decreases n - i,
    {
        let c = hex_str.get_char(i);
        let u = c as u32;
        let d: u128 = if 48 <= u && u <= 57 {
            (u - 48) as u128
        } else if 97 <= u && u <= 102 {
            (u - 87) as u128
        } else if 65 <= u && u <= 70 {
            (u - 55) as u128
        } else {
            return Err(WalletError::MalformedResponse);
        };
        proof {
            assert(stripped[i - start] == hex_str@[i as int]);
            assert(is_hex_digit(stripped[i - start]));
            assert(d as nat == hex_digit_val(stripped[i - start]));
        }
        if acc > (u128::MAX - d) / 16 {
            proof {
                let pre = stripped.subrange(0, i - start + 1);
                assert(pre.drop_last() =~= stripped.subrange(0, i - start));
                assert(parse_hex(pre) == acc as nat * 16 + d as nat);
                assert((acc as nat) * 16 + (d as nat) >= u128_limit()) by (nonlinear_arith)
                    requires
                        (acc as nat) > (0xffffffffffffffffffffffffffffffffnat - (d as nat)) / 16,
                        (d as nat) < 16,
                        (acc as nat) <= 0xffffffffffffffffffffffffffffffffnat,
                ;
                lemma_parse_hex_prefix_le(stripped, i - start + 1);
            }
            return Err(WalletError::MalformedResponse);
        }
        proof {
            assert((acc as nat) * 16 + (d as nat) <= 0xffffffffffffffffffffffffffffffffnat)
                by (nonlinear_arith)
                requires
                    (acc as nat) <= (0xffffffffffffffffffffffffffffffffnat - (d as nat)) / 16,
                    (d as nat) < 16,
            ;
            let pre = stripped.subrange(0, i - start + 1);
            assert(pre.drop_last() =~= stripped.subrange(0, i - start));
            assert(pre.last() == stripped[i - start]);
        }
        acc = acc * 16 + d;
        i = i + 1;
    }
    proof {
        assert(stripped.subrange(0, n - start) =~= stripped);
    }
    Ok(acc)
}

} // verus!
