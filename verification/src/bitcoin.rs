//! Bitcoin address validation and balance computation from block-explorer
//! chain totals.

use vstd::prelude::*;

use crate::FormatError;
use crate::WalletBalance;
use crate::WalletError;
use crate::decimal::spec_decimal_fixed;
use crate::decimal::to_fixed_decimal_string;

verus! {

/// A plausible Bitcoin address: 26 to 62 characters, starting with `'1'`
/// (legacy), `'3'` (P2SH) or `"bc1"` (bech32). A coarse syntactic check: no
/// Base58Check or bech32 checksum is verified.
pub open spec fn is_valid_bitcoin_address(s: Seq<char>) -> bool {
    &&& 26 <= s.len() <= 62
    &&& (s[0] == '1' || s[0] == '3' || (s[0] == 'b' && s[1] == 'c' && s[2] == '1'))
}

/// Validate a Bitcoin address by length and prefix; the error names the
/// failing check — empty input, then length, then prefix.
pub fn validate_address(address: &str) -> (r: Result<(), WalletError>)
    ensures
        r is Ok <==> is_valid_bitcoin_address(address@),
        address@.len() == 0 ==> r == Err::<(), WalletError>(WalletError::EmptyAddress),
        (address@.len() > 0 && !(26 <= address@.len() <= 62)) ==> r == Err::<(), WalletError>(
            WalletError::InvalidFormat(FormatError::WrongLength),
        ),
        (26 <= address@.len() <= 62 && !is_valid_bitcoin_address(address@)) ==> r == Err::<(), WalletError>(
            WalletError::InvalidFormat(FormatError::WrongPrefix),
        ),
{
    let n = address.unicode_len();
    if n == 0 {
        return Err(WalletError::EmptyAddress);
    }
    if n < 26 || n > 62 {
        return Err(WalletError::InvalidFormat(FormatError::WrongLength));
    }
    let c0 = address.get_char(0);
    if c0 == '1' || c0 == '3' {
        return Ok(());
    }
    if c0 == 'b' && address.get_char(1) == 'c' && address.get_char(2) == '1' {
        return Ok(());
    }
    Err(WalletError::InvalidFormat(FormatError::WrongPrefix))
}

/// The satoshi balance from explorer chain totals: funded minus spent,
/// never below zero.
pub open spec fn spec_satoshi_balance(funded: nat, spent: nat) -> nat {
    if funded >= spent {
        (funded - spent) as nat
    } else {
        0
    }
}

/// Compute the Bitcoin balance record from explorer chain totals: the
/// satoshi balance is funded minus spent (saturating at zero), displayed in
/// BTC with exactly 8 decimal places.
pub fn balance_from_totals(address: &str, funded_txo_sum: u64, spent_txo_sum: u64) -> (r:
    WalletBalance)
    ensures
        r.address@ == address@,
        r.balance@ == spec_decimal_fixed(
            spec_satoshi_balance(funded_txo_sum as nat, spent_txo_sum as nat),
            8,
        ),
        r.network@ == "bitcoin"@,
        r.denomination@ == "BTC"@,
{
    let sats: u64 = if funded_txo_sum >= spent_txo_sum {
        funded_txo_sum - spent_txo_sum
    } else {
        0
    };
    WalletBalance::new(
        address.to_owned(),
        to_fixed_decimal_string(sats, 8),
        String::from_str("bitcoin"),
        String::from_str("BTC"),
    )
}

} // verus!
