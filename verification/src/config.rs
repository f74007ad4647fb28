use vstd::prelude::*;
use crate::account::{account_of_text, decode_account, AccountId, ParseAccountError};
use crate::decimal::{parse_unsigned, unsigned_of, Amount};
use crate::text::str_eq;

verus! {

/// Why a setting could not be used.
#[derive(Debug, Clone, PartialEq, Eq)]
pub enum ConfigError {
    /// The setting named `key` is required and has no value.
    Missing { key: String },
    /// The setting named `key` holds no account identifier.
    InvalidPubkey { key: String, reason: ParseAccountError },
}

/// Tolerated price movement where none is set, in basis points.
pub const DEFAULT_SLIPPAGE_BPS: u16 = 500;

/// Amount of native currency to spend on one purchase where none is set:
/// two hundredths.
pub open spec fn default_max_buy_sol() -> Amount {
    Amount { negative: false, mantissa: 2, shift: 398 }
}

/// The amount to spend on one purchase where none is set.
pub fn default_max_buy() -> (r: Amount)
    ensures
        r == default_max_buy_sol(),
{
    Amount { negative: false, mantissa: 2, shift: 398 }
}

/// The values of the settings as they were found, each absent or present.
#[derive(Debug, Clone, PartialEq, Eq)]
pub struct RawSettings {
    pub rpc_websocket_endpoint: Option<String>,
    pub target_pubkey: Option<String>,
    pub slippage_bps: Option<String>,
    /// Already read as an amount of native currency.
    pub max_buy_sol: Option<Amount>,
    pub mirror_buys_only: Option<String>,
}

/// The settings that the trader runs with.
#[derive(Debug, Clone, PartialEq, Eq)]
pub struct Settings {
    pub rpc_websocket_endpoint: String,
    pub target_pubkey: String,
    pub target: AccountId,
    pub slippage_bps: u16,
    pub max_buy_sol: Amount,
    pub mirror_buys_only: bool,
}

/// The lower-case form of `s`.
pub uninterp spec fn lowercase_of(s: Seq<char>) -> Seq<char>;

/// Converts `s` to lower case.
///
/// Calls `str::to_lowercase` of the standard library, which follows the
/// Unicode tables; the contract gives its result the name `lowercase_of`.
#[verifier::external_body]
pub(crate) fn to_lowercase(s: &str) -> (r: String)
    ensures
        r@ == lowercase_of(s@),
{
    s.to_lowercase()
}

/// The switch that a lower-case word stands for: `true`, `1`, `yes` and `y`
/// switch on, `false`, `0`, `no` and `n` switch off, any other word leaves
/// the default.
pub open spec fn flag_of(word: Seq<char>, default: bool) -> bool {
    if word == "true"@ || word == "1"@ || word == "yes"@ || word == "y"@ {
        true
    } else if word == "false"@ || word == "0"@ || word == "no"@ || word == "n"@ {
        false
    } else {
        default
    }
}

/// Reads a switch from a word that is already in lower case.
pub fn flag_from_lowercase(word: &str, default: bool) -> (r: bool)
    ensures
        r == flag_of(word@, default),
{
    if str_eq(word, "true") || str_eq(word, "1") || str_eq(word, "yes") || str_eq(word, "y") {
        true
    } else if str_eq(word, "false") || str_eq(word, "0") || str_eq(word, "no") || str_eq(word, "n") {
        false
    } else {
        default
    }
}

/// A switch from the value of a setting, whatever its case; `default`
/// where the setting is absent or holds no known word.
pub fn env_bool(value: Option<&str>, default: bool) -> (r: bool)
    ensures
        r == match value {
            Some(v) => flag_of(lowercase_of(v@), default),
            None => default,
        },
{
    match value {
        Some(v) => {
            let word = to_lowercase(v);
            flag_from_lowercase(word.as_str(), default)
        },
        None => default,
    }
}

/// A 64-bit number from the value of a setting; `default` where the
/// setting is absent, is no unsigned decimal integer or does not fit.
pub fn env_u64(value: Option<&str>, default: u64) -> (r: u64)
    ensures
        r == match value {
            Some(v) => match unsigned_of(v@) {
                Some(n) => if n <= u64::MAX {
                    n as u64
                } else {
                    default
                },
                None => default,
            },
            None => default,
        },
{
    match value {
        Some(v) => match parse_unsigned(v, u64::MAX) {
            Some(n) => n,
            None => default,
        },
        None => default,
    }
}

/// A 16-bit number from the value of a setting; `default` where the
/// setting is absent, is no unsigned decimal integer or does not fit.
pub fn env_u16(value: Option<&str>, default: u16) -> (r: u16)
    ensures
        r == match value {
            Some(v) => match unsigned_of(v@) {
                Some(n) => if n <= u16::MAX {
                    n as u16
                } else {
                    default
                },
                None => default,
            },
            None => default,
        },
{
    match value {
        Some(v) => match parse_unsigned(v, 0xffff) {
            Some(n) => n as u16,
            None => default,
        },
        None => default,
    }
}

/// What reading the setting `key` yields once its value has been decoded.
pub open spec fn pubkey_setting(key: Seq<char>, decoded: Result<AccountId, ParseAccountError>, r: Result<
    AccountId,
    ConfigError,
>) -> bool {
    match decoded {
        Ok(id) => r == Ok::<AccountId, ConfigError>(id),
        Err(e) => r matches Err(ConfigError::InvalidPubkey { key: k, reason }) && k@ == key && reason
            == e,
    }
}

/// Names the setting in the error where its value did not decode.
pub fn pubkey_from_decoded(key: &str, decoded: Result<AccountId, ParseAccountError>) -> (r: Result<
    AccountId,
    ConfigError,
>)
    ensures
        pubkey_setting(key@, decoded, r),
{
    match decoded {
        Ok(id) => Ok(id),
        Err(e) => Err(ConfigError::InvalidPubkey { key: key.to_owned(), reason: e }),
    }
}

/// Reads the account identifier that the setting `key` holds as `value`.
pub fn parse_pubkey(key: &str, value: &str) -> (r: Result<AccountId, ConfigError>)
    ensures
        pubkey_setting(key@, account_of_text(value@), r),
{
    pubkey_from_decoded(key, decode_account(value))
}

/// The view of an optional text.
pub open spec fn text_of(value: Option<String>) -> Option<Seq<char>> {
    match value {
        Some(s) => Some(s@),
        None => None,
    }
}

/// `r` is what the settings found amount to: the endpoint of the feed and
/// the target are required, in this order; the other settings fall back
/// to their defaults.
pub open spec fn settings_spec(raw: RawSettings, r: Result<Settings, ConfigError>) -> bool {
    match (raw.rpc_websocket_endpoint, raw.target_pubkey) {
        (None, _) => r matches Err(ConfigError::Missing { key }) && key@
            == "RPC_WEBSOCKET_ENDPOINT"@,
        (Some(_), None) => r matches Err(ConfigError::Missing { key }) && key@ == "TARGET_PUBKEY"@,
        (Some(endpoint), Some(target)) => match account_of_text(target@) {
            Err(e) => r matches Err(ConfigError::InvalidPubkey { key, reason }) && key@
                == "TARGET_PUBKEY"@ && reason == e,
            Ok(id) => {
                &&& r matches Ok(settings)
                &&& settings.rpc_websocket_endpoint == endpoint
                &&& settings.target_pubkey == target
                &&& settings.target == id
                &&& settings.slippage_bps == (match text_of(raw.slippage_bps) {
                    Some(v) => match unsigned_of(v) {
                        Some(n) => if n <= u16::MAX {
                            n as u16
                        } else {
                            DEFAULT_SLIPPAGE_BPS
                        },
                        None => DEFAULT_SLIPPAGE_BPS,
                    },
                    None => DEFAULT_SLIPPAGE_BPS,
                })
                &&& settings.max_buy_sol == (match raw.max_buy_sol {
                    Some(v) => v,
                    None => default_max_buy_sol(),
                })
                &&& settings.mirror_buys_only == (match text_of(raw.mirror_buys_only) {
                    Some(v) => flag_of(lowercase_of(v), true),
                    None => true,
                })
            },
        },
    }
}

/// The view of an optional text, for reading.
fn as_text(value: &Option<String>) -> (r: Option<&str>)
    ensures
        match r {
            Some(s) => text_of(*value) == Some(s@),
            None => text_of(*value) is None,
        },
{
    match value {
        Some(s) => Some(s.as_str()),
        None => None,
    }
}

/// Makes the settings that the trader runs with of the values found.
pub fn settings_from(raw: RawSettings) -> (r: Result<Settings, ConfigError>)
    ensures
        settings_spec(raw, r),
{
    let slippage_bps = env_u16(as_text(&raw.slippage_bps), DEFAULT_SLIPPAGE_BPS);
    let mirror_buys_only = env_bool(as_text(&raw.mirror_buys_only), true);
    let max_buy_sol = match raw.max_buy_sol {
        Some(v) => v,
        None => default_max_buy(),
    };
    let endpoint = match raw.rpc_websocket_endpoint {
        Some(e) => e,
        None => {
            return Err(ConfigError::Missing { key: "RPC_WEBSOCKET_ENDPOINT".to_owned() });
        },
    };
    let target_pubkey = match raw.target_pubkey {
        Some(t) => t,
        None => {
            return Err(ConfigError::Missing { key: "TARGET_PUBKEY".to_owned() });
        },
    };
    match parse_pubkey("TARGET_PUBKEY", target_pubkey.as_str()) {
        Ok(target) => Ok(
            Settings {
                rpc_websocket_endpoint: endpoint,
                target_pubkey,
                target,
                slippage_bps,
                max_buy_sol,
                mirror_buys_only,
            },
        ),
        Err(e) => Err(e),
    }
}

} // verus!
