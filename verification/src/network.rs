//! The closed enumeration of supported blockchain networks and the parser
//! that maps user-supplied name tokens (case-insensitive, with aliases) to it.

use vstd::prelude::*;

use crate::WalletError;
use crate::strutil::ascii_lower;
use crate::strutil::lower_seq;

verus! {

/// A supported blockchain network.
#[derive(Debug, Clone, Copy, PartialEq, Eq, Structural)]
pub enum Network {
    Bitcoin,
    Ethereum,
    Polygon,
    Arbitrum,
    Tron,
    Base,
}

impl Network {
    /// The canonical lowercase name of the network.
    pub open spec fn spec_name(self) -> Seq<char> {
        match self {
            Network::Bitcoin => "bitcoin"@,
            Network::Ethereum => "ethereum"@,
            Network::Polygon => "polygon"@,
            Network::Arbitrum => "arbitrum"@,
            Network::Tron => "tron"@,
            Network::Base => "base"@,
        }
    }

    /// The denomination tag of the network's native currency.
    pub open spec fn spec_denomination(self) -> Seq<char> {
        match self {
            Network::Bitcoin => "BTC"@,
            Network::Ethereum => "ETH"@,
            Network::Polygon => "MATIC"@,
            Network::Arbitrum => "ETH"@,
            Network::Tron => "TRX"@,
            Network::Base => "ETH"@,
        }
    }

    /// The canonical lowercase name of the network.
    pub fn name(&self) -> (r: String)
        ensures
            r@ == self.spec_name(),
    {
        match self {
            Network::Bitcoin => String::from_str("bitcoin"),
            Network::Ethereum => String::from_str("ethereum"),
            Network::Polygon => String::from_str("polygon"),
            Network::Arbitrum => String::from_str("arbitrum"),
            Network::Tron => String::from_str("tron"),
            Network::Base => String::from_str("base"),
        }
    }

    /// The denomination tag of the network's native currency.
    pub fn denomination(&self) -> (r: String)
        ensures
            r@ == self.spec_denomination(),
    {
        match self {
            Network::Bitcoin => String::from_str("BTC"),
            Network::Ethereum => String::from_str("ETH"),
            Network::Polygon => String::from_str("MATIC"),
            Network::Arbitrum => String::from_str("ETH"),
            Network::Tron => String::from_str("TRX"),
            Network::Base => String::from_str("ETH"),
        }
    }
}

/// The network a name token denotes, after lowercasing: each network is named
/// by its canonical name or an alias; every other token is unsupported.
pub open spec fn spec_parse_network(s: Seq<char>) -> Option<Network> {
    let l = lower_seq(s);
    if l == "bitcoin"@ || l == "btc"@ {
        Some(Network::Bitcoin)
    } else if l == "ethereum"@ || l == "eth"@ {
        Some(Network::Ethereum)
    } else if l == "polygon"@ || l == "matic"@ {
        Some(Network::Polygon)
    } else if l == "arbitrum"@ || l == "arb"@ {
        Some(Network::Arbitrum)
    } else if l == "tron"@ || l == "trx"@ {
        Some(Network::Tron)
    } else if l == "base"@ {
        Some(Network::Base)
    } else {
        None
    }
}

/// Parse a case-insensitive network name token, accepting the canonical
/// names and their aliases and rejecting every other token.
pub fn parse_network(s: &str) -> (r: Result<Network, WalletError>)
    ensures
        match r {
            Ok(n) => spec_parse_network(s@) == Some(n),
            Err(e) => spec_parse_network(s@) is None && e == WalletError::UnsupportedNetwork,
        },
{
    let l = ascii_lower(s);
    if l == String::from_str("bitcoin") || l == String::from_str("btc") {
        Ok(Network::Bitcoin)
    } else if l == String::from_str("ethereum") || l == String::from_str("eth") {
        Ok(Network::Ethereum)
    } else if l == String::from_str("polygon") || l == String::from_str("matic") {
        Ok(Network::Polygon)
    } else if l == String::from_str("arbitrum") || l == String::from_str("arb") {
        Ok(Network::Arbitrum)
    } else if l == String::from_str("tron") || l == String::from_str("trx") {
        Ok(Network::Tron)
    } else if l == String::from_str("base") {
        Ok(Network::Base)
    } else {
        Err(WalletError::UnsupportedNetwork)
    }
}

impl core::str::FromStr for Network {
    type Err = WalletError;

    fn from_str(s: &str) -> Result<Self, WalletError> {
        parse_network(s)
    }
}

} // verus!
