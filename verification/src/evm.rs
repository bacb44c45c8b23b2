//! Shared logic for the EVM-family chains (Ethereum, Polygon, Arbitrum,
//! Base): address normalization and validation, JSON-RPC request bodies, and
//! interpretation of eth_getBalance / eth_call responses.

use vstd::prelude::*;

use crate::FormatError;
use crate::WalletBalance;
use crate::WalletError;
use crate::decimal::spec_decimal_trimmed;
use crate::decimal::wei_to_eth;
use crate::hexnum::is_hex_digit;
use crate::hexnum::is_hex_str;
use crate::hexnum::parse_hex;
use crate::hexnum::parse_hex_to_u128;
use crate::hexnum::strip_hex_prefix;
use crate::hexnum::u128_limit;
use crate::network::Network;
use crate::strutil::ascii_lower;
use crate::strutil::lower_seq;

verus! {

/// The normalized form of an address token: lowercased, and `"0x"`-prefixed
/// when no `"0x"`/`"0X"` prefix was present.
pub open spec fn spec_normalize_address(s: Seq<char>) -> Seq<char> {
    if s.len() >= 2 && s[0] == '0' && (s[1] == 'x' || s[1] == 'X') {
        lower_seq(s)
    } else {
        seq!['0', 'x'] + lower_seq(s)
    }
}

/// Normalize an EVM address: reject the empty string, lowercase, and ensure
/// a `"0x"` prefix.
pub fn normalize_address(address: &str) -> (r: Result<String, WalletError>)
    ensures
        match r {
            Ok(a) => address@.len() > 0 && a@ == spec_normalize_address(address@),
            Err(e) => address@.len() == 0 && e == WalletError::EmptyAddress,
        },
{
    let n = address.unicode_len();
    if n == 0 {
        return Err(WalletError::EmptyAddress);
    }
    let lowered = ascii_lower(address);
    if n >= 2 && address.get_char(0) == '0' && (address.get_char(1) == 'x' || address.get_char(1)
        == 'X') {
        Ok(lowered)
    } else {
        let r = String::from_str("0x").concat(lowered.as_str());
        proof {
            reveal_strlit("0x");
            assert(r@ =~= seq!['0', 'x'] + lower_seq(address@));
        }
        Ok(r)
    }
}

/// A wellformed normalized EVM address: `"0x"` then exactly 40 hex digits.
pub open spec fn is_valid_evm_address(s: Seq<char>) -> bool {
    &&& s.len() == 42
    &&& s[0] == '0'
    &&& s[1] == 'x'
    &&& forall|i: int| 2 <= i < 42 ==> is_hex_digit(#[trigger] s[i])
}

/// Validate a (normalized) EVM address: accepts exactly `"0x"` followed by 40
/// hexadecimal characters of either case; the error names the first failing
/// check — prefix, then length, then character set.
pub fn validate_address(address: &str) -> (r: Result<(), WalletError>)
    ensures
        r is Ok <==> is_valid_evm_address(address@),
        !(address@.len() >= 2 && address@[0] == '0' && address@[1] == 'x') ==> r == Err::<(), WalletError>(
            WalletError::InvalidFormat(FormatError::WrongPrefix),
        ),
        (address@.len() >= 2 && address@[0] == '0' && address@[1] == 'x' && address@.len() != 42)
            ==> r == Err::<(), WalletError>(WalletError::InvalidFormat(FormatError::WrongLength)),
        (address@.len() == 42 && address@[0] == '0' && address@[1] == 'x'
            && !is_valid_evm_address(address@)) ==> r == Err::<(), WalletError>(
            WalletError::InvalidFormat(FormatError::BadCharacter),
        ),
{
    let n = address.unicode_len();
    if n < 2 || address.get_char(0) != '0' || address.get_char(1) != 'x' {
        return Err(WalletError::InvalidFormat(FormatError::WrongPrefix));
    }
    if n != 42 {
        return Err(WalletError::InvalidFormat(FormatError::WrongLength));
    }
    let mut i: usize = 2;
    while i < 42
        invariant
            2 <= i <= 42,
            n == address@.len() == 42,
            address@[0] == '0',
            address@[1] == 'x',
            forall|j: int| 2 <= j < i ==> is_hex_digit(#[trigger] address@[j]),
        decreases 42 - i,
    {
        let c = address.get_char(i);
        let u = c as u32;
        if !((48 <= u && u <= 57) || (97 <= u && u <= 102) || (65 <= u && u <= 70)) {
            assert(!is_hex_digit(address@[i as int]));
            return Err(WalletError::InvalidFormat(FormatError::BadCharacter));
        }
        i = i + 1;
    }
    Ok(())
}

/// The JSON-RPC 2.0 request body asking for the balance of `address` at the
/// latest block.
pub open spec fn spec_balance_request_body(address: Seq<char>) -> Seq<char> {
    "{\"jsonrpc\":\"2.0\",\"method\":\"eth_getBalance\",\"params\":[\""@ + address
        + "\",\"latest\"],\"id\":1}"@
}

/// Build the eth_getBalance JSON-RPC request body for `address`.
pub fn balance_request_body(address: &str) -> (r: String)
    ensures
        r@ == spec_balance_request_body(address@),
{
    let mut s = String::from_str(
        "{\"jsonrpc\":\"2.0\",\"method\":\"eth_getBalance\",\"params\":[\"",
    );
    s.append(address);
    s.append("\",\"latest\"],\"id\":1}");
    s
}

/// The eth_call data for `balanceOf(address)`: the 4-byte selector, then the
/// wallet address left-padded to 32 bytes, as one hex string.
pub open spec fn spec_erc20_call_data(wallet: Seq<char>) -> Seq<char> {
    "0x70a08231000000000000000000000000"@ + wallet.subrange(2, 42)
}

/// Build the ABI-encoded call data for `balanceOf(wallet)`.
pub fn erc20_call_data(wallet: &str) -> (r: String)
    requires
        is_valid_evm_address(wallet@),
    ensures
        r@ == spec_erc20_call_data(wallet@),
{
    let tail = wallet.substring_char(2, 42);
    String::from_str("0x70a08231000000000000000000000000").concat(tail)
}

/// The JSON-RPC 2.0 request body for an eth_call of `data` against `token`.
pub open spec fn spec_eth_call_request_body(token: Seq<char>, data: Seq<char>) -> Seq<char> {
    "{\"jsonrpc\":\"2.0\",\"method\":\"eth_call\",\"params\":[{\"to\":\""@ + token
        + "\",\"data\":\""@ + data + "\"},\"latest\"],\"id\":1}"@
}

/// Build the eth_call JSON-RPC request body for `data` against `token`.
pub fn eth_call_request_body(token: &str, data: &str) -> (r: String)
    ensures
        r@ == spec_eth_call_request_body(token@, data@),
{
    let mut s = String::from_str("{\"jsonrpc\":\"2.0\",\"method\":\"eth_call\",\"params\":[{\"to\":\"");
    s.append(token);
    s.append("\",\"data\":\"");
    s.append(data);
    s.append("\"},\"latest\"],\"id\":1}");
    s
}

/// A domain-level error reported by a JSON-RPC server: its code and message.
pub struct RpcFault {
    pub code: i32,
    pub message: String,
}

/// Interpret a parsed JSON-RPC balance response: a reported error wins, a
/// missing result fails, and otherwise the `0x`-hex result is converted to a
/// trimmed decimal string at 18 decimals under the network's name and
/// denomination.
pub fn balance_from_response(
    address: &str,
    network: Network,
    result: Option<String>,
    error: Option<RpcFault>,
) -> (r: Result<WalletBalance, WalletError>)
    ensures
        (match error {
            Some(f) => r == Err::<WalletBalance, WalletError>(
                WalletError::RpcError(f.code, f.message),
            ),
            None => true,
        }),
        error is None && result is None ==> r == Err::<WalletBalance, WalletError>(
            WalletError::MissingResult,
        ),
        (match (error, result) {
            (None, Some(h)) => {
                if is_hex_str(strip_hex_prefix(h@)) && parse_hex(strip_hex_prefix(h@))
                    < u128_limit() {
                    (r matches Ok(b) && b.address@ == address@ && b.balance@
                        == spec_decimal_trimmed(parse_hex(strip_hex_prefix(h@)), 18) && b.network@
                        == network.spec_name() && b.denomination@ == network.spec_denomination())
                } else {
                    r == Err::<WalletBalance, WalletError>(WalletError::MalformedResponse)
                }
            },
            _ => true,
        }),
{
    if let Some(f) = error {
        return Err(WalletError::RpcError(f.code, f.message));
    }
    let h = match result {
        Some(h) => h,
        None => { return Err(WalletError::MissingResult) },
    };
    let wei = match parse_hex_to_u128(h.as_str()) {
        Ok(w) => w,
        Err(e) => { return Err(e) },
    };
    Ok(
        WalletBalance::new(
            address.to_owned(),
            wei_to_eth(wei),
            network.name(),
            network.denomination(),
        ),
    )
}

/// Interpret a parsed eth_call token-balance response: like
/// `balance_from_response`, but the result is the bare decimal string
/// (18 decimals assumed, matching the query's scope).
pub fn erc20_balance_from_response(result: Option<String>, error: Option<RpcFault>) -> (r: Result<
    String,
    WalletError,
>)
    ensures
        (match error {
            Some(f) => r == Err::<String, WalletError>(WalletError::RpcError(f.code, f.message)),
            None => true,
        }),
        error is None && result is None ==> r == Err::<String, WalletError>(
            WalletError::MissingResult,
        ),
        (match (error, result) {
            (None, Some(h)) => {
                if is_hex_str(strip_hex_prefix(h@)) && parse_hex(strip_hex_prefix(h@))
                    < u128_limit() {
                    (r matches Ok(b) && b@ == spec_decimal_trimmed(
                        parse_hex(strip_hex_prefix(h@)),
                        18,
                    ))
                } else {
                    r == Err::<String, WalletError>(WalletError::MalformedResponse)
                }
            },
            _ => true,
        }),
{
    if let Some(f) = error {
        return Err(WalletError::RpcError(f.code, f.message));
    }
    let h = match result {
        Some(h) => h,
        None => { return Err(WalletError::MissingResult) },
    };
    let wei = match parse_hex_to_u128(h.as_str()) {
        Ok(w) => w,
        Err(e) => { return Err(e) },
    };
    Ok(wei_to_eth(wei))
}

} // verus!
