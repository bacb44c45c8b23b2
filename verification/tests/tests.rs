//! Tests of the wallet balance library: unit conversion, per-chain address
//! validation, network-name parsing, and balance-response interpretation
//! against mocked transport data.

use wallet_balance::FormatError;
use wallet_balance::WalletBalance;
use wallet_balance::WalletError;
use wallet_balance::bitcoin;
use wallet_balance::check_status;
use wallet_balance::decimal::to_decimal_string;
use wallet_balance::decimal::to_fixed_decimal_string;
use wallet_balance::decimal::wei_to_eth;
use wallet_balance::evm;
use wallet_balance::evm::RpcFault;
use wallet_balance::hexnum::parse_hex_to_u128;
use wallet_balance::network::Network;
use wallet_balance::network::parse_network;
use wallet_balance::tron;
use wallet_balance::tron::TronAccount;

// ============================================================================
// Network parsing
// ============================================================================

#[test]
fn test_network_parsing() {
    assert_eq!("bitcoin".parse::<Network>().unwrap(), Network::Bitcoin);
    assert_eq!("btc".parse::<Network>().unwrap(), Network::Bitcoin);
    assert_eq!("ethereum".parse::<Network>().unwrap(), Network::Ethereum);
    assert_eq!("eth".parse::<Network>().unwrap(), Network::Ethereum);
    assert!("invalid".parse::<Network>().is_err());
}

#[test]
fn test_network_parsing_case_insensitive_and_aliases() {
    assert_eq!(parse_network("BitCoin").unwrap(), Network::Bitcoin);
    assert_eq!(parse_network("ETH").unwrap(), Network::Ethereum);
    assert_eq!(parse_network("polygon").unwrap(), Network::Polygon);
    assert_eq!(parse_network("matic").unwrap(), Network::Polygon);
    assert_eq!(parse_network("arbitrum").unwrap(), Network::Arbitrum);
    assert_eq!(parse_network("arb").unwrap(), Network::Arbitrum);
    assert_eq!(parse_network("tron").unwrap(), Network::Tron);
    assert_eq!(parse_network("trx").unwrap(), Network::Tron);
    assert_eq!(parse_network("Base").unwrap(), Network::Base);
    assert_eq!(
        parse_network("dogecoin").unwrap_err(),
        WalletError::UnsupportedNetwork
    );
}

#[test]
fn test_network_names_and_denominations() {
    assert_eq!(Network::Bitcoin.name(), "bitcoin");
    assert_eq!(Network::Ethereum.name(), "ethereum");
    assert_eq!(Network::Polygon.name(), "polygon");
    assert_eq!(Network::Arbitrum.name(), "arbitrum");
    assert_eq!(Network::Tron.name(), "tron");
    assert_eq!(Network::Base.name(), "base");
    assert_eq!(Network::Bitcoin.denomination(), "BTC");
    assert_eq!(Network::Ethereum.denomination(), "ETH");
    assert_eq!(Network::Polygon.denomination(), "MATIC");
    assert_eq!(Network::Arbitrum.denomination(), "ETH");
    assert_eq!(Network::Tron.denomination(), "TRX");
    assert_eq!(Network::Base.denomination(), "ETH");
}

// ============================================================================
// Unit conversion
// ============================================================================

#[test]
fn test_decimal_zero_is_bare_zero() {
    assert_eq!(to_decimal_string(0, 18), "0");
    assert_eq!(to_decimal_string(0, 8), "0");
    assert_eq!(to_decimal_string(0, 0), "0");
}

#[test]
fn test_decimal_power_of_ten_is_one() {
    assert_eq!(to_decimal_string(1_000_000_000_000_000_000, 18), "1");
    assert_eq!(to_decimal_string(100_000_000, 8), "1");
    assert_eq!(to_decimal_string(1_000_000, 6), "1");
}

#[test]
fn test_decimal_trims_trailing_zeros() {
    assert_eq!(to_decimal_string(1_500_000_000_000_000_000, 18), "1.5");
    assert_eq!(to_decimal_string(500_000_000_000_000_000, 18), "0.5");
    assert_eq!(to_decimal_string(10, 18), "0.00000000000000001");
    assert_eq!(to_decimal_string(123, 0), "123");
}

#[test]
fn test_decimal_round_trip_exact_values() {
    // Below 2^53.
    assert_eq!(to_decimal_string(123_456_789, 8), "1.23456789");
    // Just above 2^53 = 9007199254740992: a float64 could not hold this.
    assert_eq!(to_decimal_string(9_007_199_254_740_993, 8), "90071992.54740993");
    // Above 2^64 = 18446744073709551616.
    assert_eq!(
        to_decimal_string(36_893_488_147_419_103_232, 18),
        "36.893488147419103232"
    );
    // A 23-digit value at 18 decimals.
    assert_eq!(
        to_decimal_string(12_345_678_901_234_567_890_123, 18),
        "12345.678901234567890123"
    );
    // The largest u128 survives unharmed.
    assert_eq!(
        to_decimal_string(u128::MAX, 18),
        "340282366920938463463.374607431768211455"
    );
}

#[test]
fn test_fixed_decimal_keeps_all_places() {
    assert_eq!(to_fixed_decimal_string(0, 6), "0.000000");
    assert_eq!(to_fixed_decimal_string(0, 8), "0.00000000");
    assert_eq!(to_fixed_decimal_string(150_000_000, 8), "1.50000000");
    assert_eq!(to_fixed_decimal_string(1, 8), "0.00000001");
    // Above 2^53: float64 arithmetic would lose the final digit.
    assert_eq!(
        to_fixed_decimal_string(9_007_199_254_740_993, 8),
        "90071992.54740993"
    );
    assert_eq!(to_fixed_decimal_string(42, 0), "42");
}

#[test]
fn test_wei_to_eth_matches_trimmed_conversion() {
    assert_eq!(wei_to_eth(1_000_000_000_000_000_000), "1");
    assert_eq!(wei_to_eth(500_000_000_000_000_000), "0.5");
    assert_eq!(wei_to_eth(0), "0");
}

// ============================================================================
// Hex parsing
// ============================================================================

#[test]
fn test_parse_hex_values() {
    assert_eq!(parse_hex_to_u128("0xde0b6b3a7640000").unwrap(), 1_000_000_000_000_000_000);
    assert_eq!(parse_hex_to_u128("0x6f05b59d3b20000").unwrap(), 500_000_000_000_000_000);
    assert_eq!(parse_hex_to_u128("0x0").unwrap(), 0);
    assert_eq!(parse_hex_to_u128("ff").unwrap(), 255);
    assert_eq!(parse_hex_to_u128("0xFF").unwrap(), 255);
    assert_eq!(
        parse_hex_to_u128("0xffffffffffffffffffffffffffffffff").unwrap(),
        u128::MAX
    );
}

#[test]
fn test_parse_hex_rejects_bad_input() {
    assert_eq!(parse_hex_to_u128("").unwrap_err(), WalletError::MalformedResponse);
    assert_eq!(parse_hex_to_u128("0x").unwrap_err(), WalletError::MalformedResponse);
    assert_eq!(parse_hex_to_u128("0xzz").unwrap_err(), WalletError::MalformedResponse);
    assert_eq!(parse_hex_to_u128("12 34").unwrap_err(), WalletError::MalformedResponse);
    // One hex digit past the u128 range.
    assert_eq!(
        parse_hex_to_u128("0x1ffffffffffffffffffffffffffffffff").unwrap_err(),
        WalletError::MalformedResponse
    );
}

// ============================================================================
// EVM address validation
// ============================================================================

#[test]
fn test_evm_validator_accepts_hex_of_any_case() {
    assert!(evm::validate_address("0xd8da6bf26964af9d7eed9e03e53415d37aa96045").is_ok());
    assert!(evm::validate_address("0xD8DA6BF26964AF9D7EED9E03E53415D37AA96045").is_ok());
    assert!(evm::validate_address("0xd8dA6BF26964aF9D7eEd9e03E53415D37aA96045").is_ok());
}

#[test]
fn test_evm_validator_rejects_bad_addresses() {
    // Empty input is rejected before normalization.
    assert_eq!(
        evm::normalize_address("").unwrap_err(),
        WalletError::EmptyAddress
    );
    // 41 characters: 0x plus 39 hex digits.
    assert_eq!(
        evm::validate_address("0xd8da6bf26964af9d7eed9e03e53415d37aa9604").unwrap_err(),
        WalletError::InvalidFormat(FormatError::WrongLength)
    );
    // 43 characters: 0x plus 41 hex digits.
    assert_eq!(
        evm::validate_address("0xd8da6bf26964af9d7eed9e03e53415d37aa960455").unwrap_err(),
        WalletError::InvalidFormat(FormatError::WrongLength)
    );
    // Non-hex characters after the prefix.
    assert_eq!(
        evm::validate_address("0xz8da6bf26964af9d7eed9e03e53415d37aa96045").unwrap_err(),
        WalletError::InvalidFormat(FormatError::BadCharacter)
    );
    // Missing 0x prefix when handed straight to the validator.
    assert_eq!(
        evm::validate_address("d8da6bf26964af9d7eed9e03e53415d37aa96045").unwrap_err(),
        WalletError::InvalidFormat(FormatError::WrongPrefix)
    );
    assert_eq!(
        evm::validate_address("0xinvalid").unwrap_err(),
        WalletError::InvalidFormat(FormatError::WrongLength)
    );
}

#[test]
fn test_evm_normalization() {
    // Adds the prefix and lowercases.
    assert_eq!(
        evm::normalize_address("d8dA6BF26964aF9D7eEd9e03E53415D37aA96045").unwrap(),
        "0xd8da6bf26964af9d7eed9e03e53415d37aa96045"
    );
    // A 0X prefix is lowercased, not doubled; the result validates.
    let normalized = evm::normalize_address("0XD8DA6BF26964AF9D7EED9E03E53415D37AA96045").unwrap();
    assert_eq!(normalized, "0xd8da6bf26964af9d7eed9e03e53415d37aa96045");
    assert!(evm::validate_address(&normalized).is_ok());
}

#[test]
fn test_erc20_call_data_layout() {
    let data = evm::erc20_call_data("0xd8da6bf26964af9d7eed9e03e53415d37aa96045");
    assert_eq!(
        data,
        "0x70a08231000000000000000000000000d8da6bf26964af9d7eed9e03e53415d37aa96045"
    );
    // 2 + 8 selector digits + 64 argument digits.
    assert_eq!(data.len(), 74);
}

#[test]
fn test_evm_request_bodies() {
    assert_eq!(
        evm::balance_request_body("0xd8da6bf26964af9d7eed9e03e53415d37aa96045"),
        "{\"jsonrpc\":\"2.0\",\"method\":\"eth_getBalance\",\"params\":[\"0xd8da6bf26964af9d7eed9e03e53415d37aa96045\",\"latest\"],\"id\":1}"
    );
    assert_eq!(
        evm::eth_call_request_body("0xtoken", "0xdata"),
        "{\"jsonrpc\":\"2.0\",\"method\":\"eth_call\",\"params\":[{\"to\":\"0xtoken\",\"data\":\"0xdata\"},\"latest\"],\"id\":1}"
    );
}

// ============================================================================
// Bitcoin address validation and balance
// ============================================================================

#[test]
fn test_bitcoin_validator_accepts_known_prefixes() {
    assert!(bitcoin::validate_address("1A1zP1eP5QGefi2DMPTfTL5SLmv7DivfNa").is_ok());
    assert!(bitcoin::validate_address("3D2oetdNuZUqQHPJmcMDDHYoqkyNVsFk9r").is_ok());
    assert!(bitcoin::validate_address("bc1qar0srrr7xfkvy5l643lydnw9re59gtzzwf5mdq").is_ok());
}

#[test]
fn test_bitcoin_validator_rejects_bad_addresses() {
    assert_eq!(
        bitcoin::validate_address("").unwrap_err(),
        WalletError::EmptyAddress
    );
    assert_eq!(
        bitcoin::validate_address("1234567890").unwrap_err(),
        WalletError::InvalidFormat(FormatError::WrongLength)
    );
    assert_eq!(
        bitcoin::validate_address("invalid_bitcoin_address").unwrap_err(),
        WalletError::InvalidFormat(FormatError::WrongLength)
    );
    // Right length, wrong prefix.
    assert_eq!(
        bitcoin::validate_address("2A1zP1eP5QGefi2DMPTfTL5SLmv7DivfNa").unwrap_err(),
        WalletError::InvalidFormat(FormatError::WrongPrefix)
    );
}

#[test]
fn test_bitcoin_balance_from_totals() {
    let b = bitcoin::balance_from_totals("1A1zP1eP5QGefi2DMPTfTL5SLmv7DivfNa", 150_000_000, 0);
    assert_eq!(b.address, "1A1zP1eP5QGefi2DMPTfTL5SLmv7DivfNa");
    assert_eq!(b.balance, "1.50000000");
    assert_eq!(b.network, "bitcoin");
    assert_eq!(b.denomination, "BTC");
    // Funded minus spent, fixed 8 places.
    let b = bitcoin::balance_from_totals("1A1zP1eP5QGefi2DMPTfTL5SLmv7DivfNa", 500, 200);
    assert_eq!(b.balance, "0.00000300");
    // Never negative: saturates at zero.
    let b = bitcoin::balance_from_totals("1A1zP1eP5QGefi2DMPTfTL5SLmv7DivfNa", 200, 500);
    assert_eq!(b.balance, "0.00000000");
}

// ============================================================================
// Tron address validation and balance
// ============================================================================

#[test]
fn test_tron_validator_accepts_known_good_address() {
    // A 34-character address whose Base58Check payload has version byte
    // 0x41 and a correct double-SHA256 checksum.
    assert!(tron::validate_address("TA4Y62o6YC2Zsck9rZVGTvqW1AQ7X9zTnj").is_ok());
}

#[test]
fn test_tron_validator_rejects_flipped_checksum() {
    // Same address with the final character changed: checksum mismatch.
    assert_eq!(
        tron::validate_address("TA4Y62o6YC2Zsck9rZVGTvqW1AQ7X9zTnr").unwrap_err(),
        WalletError::ChecksumMismatch
    );
}

#[test]
fn test_tron_validator_rejects_bad_shape() {
    assert_eq!(
        tron::validate_address("TR7NKqjoewsW2NHdBJiYbmw6UXAZpMUcS").unwrap_err(),
        WalletError::InvalidFormat(FormatError::WrongLength)
    );
    assert_eq!(
        tron::validate_address("AR7NKqjoewsW2NHdBJiYbmw6UXAZpMUcSq").unwrap_err(),
        WalletError::InvalidFormat(FormatError::WrongPrefix)
    );
    // A zero is not a Base58 character.
    assert_eq!(
        tron::validate_address("T07NKqjoewsW2NHdBJiYbmw6UXAZpMUcSq").unwrap_err(),
        WalletError::InvalidFormat(FormatError::BadCharacter)
    );
    // Decodes to 25 bytes whose version byte is 0x40, not 0x41.
    assert_eq!(
        tron::validate_address("T9yD14Nj9j7xAB4dbGeiX9h8unkKDDv9ZQ").unwrap_err(),
        WalletError::InvalidFormat(FormatError::WrongVersionByte)
    );
}

#[test]
fn test_tron_empty_account_is_zero_balance() {
    let accounts: Vec<TronAccount> = Vec::new();
    let b = tron::balance_from_account("TR7NKqjoewsW2NHdBJiYbmw6UXAZpMUcSq", true, &accounts);
    assert_eq!(b.balance, "0.000000");
    assert_eq!(b.network, "tron");
    assert_eq!(b.denomination, "TRX");
}

#[test]
fn test_tron_balance_from_first_record() {
    let accounts = vec![TronAccount { balance: Some(1_500_000) }];
    let b = tron::balance_from_account("TR7NKqjoewsW2NHdBJiYbmw6UXAZpMUcSq", true, &accounts);
    assert_eq!(b.balance, "1.500000");
    // A record without the balance field counts as zero.
    let accounts = vec![TronAccount { balance: None }];
    let b = tron::balance_from_account("TR7NKqjoewsW2NHdBJiYbmw6UXAZpMUcSq", true, &accounts);
    assert_eq!(b.balance, "0.000000");
    // An unsuccessful query is a zero balance, not an error.
    let accounts = vec![TronAccount { balance: Some(777) }];
    let b = tron::balance_from_account("TR7NKqjoewsW2NHdBJiYbmw6UXAZpMUcSq", false, &accounts);
    assert_eq!(b.balance, "0.000000");
}

// ============================================================================
// End-to-end against mocked transport data
// ============================================================================

fn mock_rpc(body: &str) -> (Option<String>, Option<RpcFault>) {
    let v: serde_json::Value = serde_json::from_str(body).expect("mock body parses");
    let result = v.get("result").and_then(|r| r.as_str()).map(|s| s.to_string());
    let error = v.get("error").map(|e| RpcFault {
        code: e.get("code").and_then(|c| c.as_i64()).unwrap_or(0) as i32,
        message: e
            .get("message")
            .and_then(|m| m.as_str())
            .unwrap_or("")
            .to_string(),
    });
    (result, error)
}

#[test]
fn test_evm_one_ether_response() {
    let (result, error) = mock_rpc("{\"result\":\"0xde0b6b3a7640000\"}");
    let b = evm::balance_from_response(
        "0xd8da6bf26964af9d7eed9e03e53415d37aa96045",
        Network::Ethereum,
        result,
        error,
    )
    .unwrap();
    assert_eq!(b.balance, "1");
    assert_eq!(b.denomination, "ETH");
    assert_eq!(b.network, "ethereum");
    assert_eq!(b.address, "0xd8da6bf26964af9d7eed9e03e53415d37aa96045");
}

#[test]
fn test_evm_half_ether_response() {
    let (result, error) = mock_rpc("{\"result\":\"0x6f05b59d3b20000\"}");
    let b = evm::balance_from_response(
        "0xd8da6bf26964af9d7eed9e03e53415d37aa96045",
        Network::Ethereum,
        result,
        error,
    )
    .unwrap();
    assert_eq!(b.balance, "0.5");
}

#[test]
fn test_evm_rpc_error_response() {
    let (result, error) =
        mock_rpc("{\"error\":{\"code\":-32000,\"message\":\"header not found\"}}");
    let r = evm::balance_from_response(
        "0xd8da6bf26964af9d7eed9e03e53415d37aa96045",
        Network::Ethereum,
        result,
        error,
    );
    assert_eq!(
        r.unwrap_err(),
        WalletError::RpcError(-32000, "header not found".to_string())
    );
}

#[test]
fn test_evm_missing_result_response() {
    let (result, error) = mock_rpc("{\"id\":1}");
    let r = evm::balance_from_response(
        "0xd8da6bf26964af9d7eed9e03e53415d37aa96045",
        Network::Ethereum,
        result,
        error,
    );
    assert_eq!(r.unwrap_err(), WalletError::MissingResult);
}

#[test]
fn test_evm_malformed_result_response() {
    let (result, error) = mock_rpc("{\"result\":\"0xnothex\"}");
    let r = evm::balance_from_response(
        "0xd8da6bf26964af9d7eed9e03e53415d37aa96045",
        Network::Ethereum,
        result,
        error,
    );
    assert_eq!(r.unwrap_err(), WalletError::MalformedResponse);
}

#[test]
fn test_erc20_balance_from_response() {
    let (result, error) = mock_rpc(
        "{\"result\":\"0x0000000000000000000000000000000000000000000000001bc16d674ec80000\"}",
    );
    let r = evm::erc20_balance_from_response(result, error).unwrap();
    assert_eq!(r, "2");
}

#[test]
fn test_http_error_status_is_transport_failure() {
    assert_eq!(
        check_status(500).unwrap_err(),
        WalletError::TransportFailure(500)
    );
    assert_eq!(
        check_status(404).unwrap_err(),
        WalletError::TransportFailure(404)
    );
    assert!(check_status(200).is_ok());
    assert!(check_status(201).is_ok());
    assert_eq!(
        check_status(301).unwrap_err(),
        WalletError::TransportFailure(301)
    );
}

#[test]
fn test_wallet_balance_new_keeps_fields() {
    let b = WalletBalance::new(
        "addr".to_string(),
        "1.5".to_string(),
        "ethereum".to_string(),
        "ETH".to_string(),
    );
    assert_eq!(b.address, "addr");
    assert_eq!(b.balance, "1.5");
    assert_eq!(b.network, "ethereum");
    assert_eq!(b.denomination, "ETH");
}
