//! Wallet balance library: per-chain address validation, integer base-unit
//! to decimal-string conversion, and balance-response interpretation for
//! several blockchain networks.

use vstd::prelude::*;

pub mod bitcoin;
pub mod decimal;
pub mod evm;
pub mod hexnum;
pub mod network;
pub mod strutil;
pub mod tron;

pub use network::Network;

verus! {

/// The reason an address failed the per-chain format check.
#[derive(Debug, Clone, Copy, PartialEq, Eq, Structural)]
pub enum FormatError {
    WrongLength,
    WrongPrefix,
    BadCharacter,
    WrongDecodedLength,
    WrongVersionByte,
}

/// Everything that can go wrong during a balance lookup. Each failure is
/// terminal for the call; a zero balance is a success, never an error.
#[derive(Debug, PartialEq, Eq)]
pub enum WalletError {
    /// The supplied address is the empty string.
    EmptyAddress,
    /// The address fails the chain's format check, for the given reason.
    InvalidFormat(FormatError),
    /// A Tron address whose embedded Base58Check checksum does not match.
    ChecksumMismatch,
    /// The HTTP round trip failed; carries the status code (0 when no
    /// response arrived at all).
    TransportFailure(u16),
    /// The response body could not be read as the expected shape.
    MalformedResponse,
    /// The JSON-RPC server reported an error, with its code and message.
    RpcError(i32, String),
    /// A well-formed JSON-RPC response without the expected result field.
    MissingResult,
    /// The network-name token is not a supported network.
    UnsupportedNetwork,
}

/// Check an HTTP status code: 2xx is success, anything else is a transport
/// failure carrying the status.
pub fn check_status(status: u16) -> (r: Result<(), WalletError>)
    ensures
        r is Ok <==> 200 <= status < 300,
        !(200 <= status < 300) ==> r == Err::<(), WalletError>(
            WalletError::TransportFailure(status),
        ),
{
    if 200 <= status && status < 300 {
        Ok(())
    } else {
        Err(WalletError::TransportFailure(status))
    }
}

/// A wallet balance: the queried address, the balance as a decimal string,
/// the network's lowercase name, and the currency denomination tag.
#[derive(Debug, Clone, PartialEq, Eq)]
pub struct WalletBalance {
    pub address: String,
    pub balance: String,
    pub network: String,
    pub denomination: String,
}

impl WalletBalance {
    /// Create a new WalletBalance from its four fields.
    pub fn new(address: String, balance: String, network: String, denomination: String) -> (r:
        Self)
        ensures
            r.address == address,
            r.balance == balance,
            r.network == network,
            r.denomination == denomination,
    {
        Self { address, balance, network, denomination }
    }
}

} // verus!
