//! Tron address validation (full Base58Check with double-SHA256 checksum)
//! and balance computation from account records.

use vstd::prelude::*;

use crate::FormatError;
use crate::WalletBalance;
use crate::WalletError;
use crate::decimal::spec_decimal_fixed;
use crate::decimal::to_fixed_decimal_string;

verus! {

/// What Base58 decoding returns for a character sequence: the decoded bytes,
/// or nothing when the input is not valid Base58. A pure function of the
/// input.
pub uninterp spec fn base58_decode_of(s: Seq<char>) -> Option<Seq<u8>>;

/// Relies on base58::FromBase58::from_base58 for str: decodes a Base58
/// string to its bytes, failing on inputs that are not valid Base58; the
/// outcome depends on the input characters alone. The length bound keeps the
/// input well inside the crate's fixed 132-byte decode buffer, whose
/// leading-zero arithmetic panics on longer all-`'1'` strings.
#[verifier::external_body]
fn base58_decode(s: &str) -> (r: Option<Vec<u8>>)
    requires
        s@.len() <= 128,
    ensures
        match r {
            Some(v) => base58_decode_of(s@) == Some(v@),
            None => base58_decode_of(s@) is None,
        },
{
    match base58::FromBase58::from_base58(s) {
        Ok(v) => Some(v),
        Err(_) => None,
    }
}

/// The SHA-256 digest of a byte sequence: a pure function of the input,
/// always 32 bytes long.
pub uninterp spec fn sha256_of(b: Seq<u8>) -> Seq<u8>;

/// Relies on sha2::Sha256 (the Digest::digest convenience method): computes
/// the 32-byte SHA-256 digest of the input bytes.
#[verifier::external_body]
fn sha256(data: &Vec<u8>) -> (r: Vec<u8>)
    ensures
        r@ == sha256_of(data@),
        r@.len() == 32,
{
    let digest = <sha2::Sha256 as sha2::Digest>::digest(data.as_slice());
    digest.to_vec()
}

/// A decoded Tron address payload in its valid form: 25 bytes, version byte
/// 0x41, and the last 4 bytes equal to the first 4 bytes of the
/// double-SHA256 of the first 21 bytes.
pub open spec fn tron_payload_ok(d: Seq<u8>) -> bool {
    &&& d.len() == 25
    &&& d[0] == 0x41u8
    &&& sha256_of(sha256_of(d.subrange(0, 21))).subrange(0, 4) == d.subrange(21, 25)
}

/// A valid Tron address: 34 characters, leading `'T'`, and a Base58Check
/// decoding with the right length, version byte and checksum.
pub open spec fn is_valid_tron_address(s: Seq<char>) -> bool {
    &&& s.len() == 34
    &&& s[0] == 'T'
    &&& match base58_decode_of(s) {
        Some(d) => tron_payload_ok(d),
        None => false,
    }
}

/// Validate a Tron address: length 34, leading `'T'`, then a full
/// Base58Check decode with double-SHA256 checksum verification. The error
/// names the failing stage — length, prefix, Base58 decoding, decoded
/// length, version byte, checksum.
pub fn validate_address(address: &str) -> (r: Result<(), WalletError>)
    ensures
        r is Ok <==> is_valid_tron_address(address@),
        address@.len() != 34 ==> r == Err::<(), WalletError>(
            WalletError::InvalidFormat(FormatError::WrongLength),
        ),
        (address@.len() == 34 && address@[0] != 'T') ==> r == Err::<(), WalletError>(
            WalletError::InvalidFormat(FormatError::WrongPrefix),
        ),
        (address@.len() == 34 && address@[0] == 'T' && base58_decode_of(address@) is None) ==> r
            == Err::<(), WalletError>(WalletError::InvalidFormat(FormatError::BadCharacter)),
        (match base58_decode_of(address@) {
            Some(d) => {
                if address@.len() == 34 && address@[0] == 'T' {
                    if d.len() != 25 {
                        r == Err::<(), WalletError>(
                            WalletError::InvalidFormat(FormatError::WrongDecodedLength),
                        )
                    } else if d[0] != 0x41u8 {
                        r == Err::<(), WalletError>(
                            WalletError::InvalidFormat(FormatError::WrongVersionByte),
                        )
                    } else if sha256_of(sha256_of(d.subrange(0, 21))).subrange(0, 4) != d.subrange(
                        21,
                        25,
                    ) {
                        r == Err::<(), WalletError>(WalletError::ChecksumMismatch)
                    } else {
                        r is Ok
                    }
                } else {
                    true
                }
            },
            None => true,
        }),
{
    let n = address.unicode_len();
    if n != 34 {
        return Err(WalletError::InvalidFormat(FormatError::WrongLength));
    }
    if address.get_char(0) != 'T' {
        return Err(WalletError::InvalidFormat(FormatError::WrongPrefix));
    }
    let decoded = match base58_decode(address) {
        Some(d) => d,
        None => { return Err(WalletError::InvalidFormat(FormatError::BadCharacter)) },
    };
    if decoded.len() != 25 {
        return Err(WalletError::InvalidFormat(FormatError::WrongDecodedLength));
    }
    if decoded[0] != 0x41u8 {
        return Err(WalletError::InvalidFormat(FormatError::WrongVersionByte));
    }
    let mut payload: Vec<u8> = Vec::new();
    let mut i: usize = 0;
    while i < 21
        invariant
            i <= 21,
            decoded@.len() == 25,
            payload@ == decoded@.subrange(0, i as int),
        decreases 21 - i,
    {
        let b = decoded[i];
        payload.push(b);
        proof {
            assert(decoded@.subrange(0, i as int).push(decoded@[i as int]) =~= decoded@.subrange(
                0,
                i + 1,
            ));
        }
        i = i + 1;
    }
    let hash1 = sha256(&payload);
    let hash2 = sha256(&hash1);
    let ghost digest = sha256_of(sha256_of(decoded@.subrange(0, 21)));
    proof {
        assert(hash2@ == digest);
    }
    let ok = hash2[0] == decoded[21] && hash2[1] == decoded[22] && hash2[2] == decoded[23]
        && hash2[3] == decoded[24];
    proof {
        if ok {
            assert(digest.subrange(0, 4) =~= decoded@.subrange(21, 25));
        } else {
            if digest.subrange(0, 4) == decoded@.subrange(21, 25) {
                assert(digest.subrange(0, 4)[0] == decoded@.subrange(21, 25)[0]);
                assert(digest.subrange(0, 4)[1] == decoded@.subrange(21, 25)[1]);
                assert(digest.subrange(0, 4)[2] == decoded@.subrange(21, 25)[2]);
                assert(digest.subrange(0, 4)[3] == decoded@.subrange(21, 25)[3]);
            }
        }
    }
    if ok {
        Ok(())
    } else {
        Err(WalletError::ChecksumMismatch)
    }
}

/// One account record of the Tron account endpoint: its balance in sun,
/// absent when the record does not carry the field.
pub struct TronAccount {
    pub balance: Option<u64>,
}

/// The sun balance a Tron account response denotes: zero when the query did
/// not succeed or no record exists (a new or unfunded account), else the
/// first record's balance, zero when the field is absent.
pub open spec fn spec_tron_sun(success: bool, accounts: Seq<TronAccount>) -> nat {
    if !success || accounts.len() == 0 {
        0
    } else {
        match accounts[0].balance {
            Some(b) => b as nat,
            None => 0,
        }
    }
}

/// Compute the Tron balance record from a parsed account response: an
/// unsuccessful query or an empty record list is a zero balance (not an
/// error); the sun amount is displayed in TRX with exactly 6 decimal places.
pub fn balance_from_account(address: &str, success: bool, accounts: &Vec<TronAccount>) -> (r:
    WalletBalance)
    ensures
        r.address@ == address@,
        r.balance@ == spec_decimal_fixed(spec_tron_sun(success, accounts@), 6),
        r.network@ == "tron"@,
        r.denomination@ == "TRX"@,
{
    let sun: u64 = if !success || accounts.len() == 0 {
        0
    } else {
        match accounts[0].balance {
            Some(b) => b,
            None => 0,
        }
    };
    WalletBalance::new(
        address.to_owned(),
        to_fixed_decimal_string(sun, 6),
        String::from_str("tron"),
        String::from_str("TRX"),
    )
}

} // verus!
