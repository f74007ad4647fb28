use vstd::prelude::*;
use solana_sdk::pubkey::{ParsePubkeyError, Pubkey};
use std::str::FromStr;

verus! {

/// A public identifier of a network account or of a token type.
#[derive(Debug, Clone, Copy, PartialEq, Eq)]
pub struct AccountId {
    pub bytes: [u8; 32],
}

/// Why a text is no account identifier.
#[derive(Debug, Clone, Copy, PartialEq, Eq)]
pub enum ParseAccountError {
    /// The text does not decode to exactly 32 bytes.
    WrongSize,
    /// The text holds a character outside the base58 alphabet.
    Invalid,
}

/// What the base58 text `s` decodes to as an account identifier.
pub uninterp spec fn account_of_text(s: Seq<char>) -> Result<AccountId, ParseAccountError>;

/// The base58 text of the account identifier with these bytes.
pub uninterp spec fn text_of_account(bytes: Seq<u8>) -> Seq<char>;

/// Decodes a base58 account identifier.
///
/// Calls `Pubkey::from_str` of `solana_sdk`, which returns the 32 decoded
/// bytes or one of two errors; the contract gives that outcome the name
/// `account_of_text` and claims nothing further about it.
#[verifier::external_body]
pub(crate) fn decode_account(s: &str) -> (r: Result<AccountId, ParseAccountError>)
    ensures
        r == account_of_text(s@),
{
    match Pubkey::from_str(s) {
        Ok(key) => Ok(AccountId { bytes: key.to_bytes() }),
        Err(ParsePubkeyError::WrongSize) => Err(ParseAccountError::WrongSize),
        Err(ParsePubkeyError::Invalid) => Err(ParseAccountError::Invalid),
    }
}

/// Encodes an account identifier as base58 text.
///
/// Calls `Pubkey::to_string` of `solana_sdk` on the key made of the same 32
/// bytes; the contract gives the text the name `text_of_account`.
#[verifier::external_body]
pub(crate) fn encode_account(id: &AccountId) -> (r: String)
    ensures
        r@ == text_of_account(id.bytes@),
{
    Pubkey::new_from_array(id.bytes).to_string()
}

impl AccountId {
    /// Reads an account identifier from its base58 text.
    pub fn parse(s: &str) -> (r: Result<AccountId, ParseAccountError>)
        ensures
            r == account_of_text(s@),
    {
        decode_account(s)
    }

    /// The base58 text of this identifier.
    pub fn to_text(&self) -> (r: String)
        ensures
            r@ == text_of_account(self.bytes@),
    {
        encode_account(self)
    }
}

} // verus!
