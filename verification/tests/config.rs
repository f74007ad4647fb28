use ammalgram_assistant::account::ParseAccountError;
use ammalgram_assistant::account::AccountId;
use ammalgram_assistant::config::{
    env_bool, env_u16, env_u64, flag_from_lowercase, parse_pubkey, pubkey_from_decoded,
    default_max_buy, settings_from, ConfigError, RawSettings, Settings, DEFAULT_SLIPPAGE_BPS,
};
use ammalgram_assistant::amount::sol_to_lamports;
use ammalgram_assistant::decimal::Amount;

const TARGET: &str = "EPjFWdd5AufqSSqeM2qN1xzybapC8G4wEGGkZwyTDt1v";

fn found(endpoint: Option<&str>, target: Option<&str>) -> RawSettings {
    RawSettings {
        rpc_websocket_endpoint: endpoint.map(|s| s.to_string()),
        target_pubkey: target.map(|s| s.to_string()),
        slippage_bps: None,
        max_buy_sol: None,
        mirror_buys_only: None,
    }
}

#[test]
fn env_bool_knows_the_words_for_on() {
    for word in ["true", "1", "yes", "y", "TRUE", "Yes", "Y", "tRuE"] {
        assert!(env_bool(Some(word), false), "{word:?}");
    }
}

#[test]
fn env_bool_knows_the_words_for_off() {
    for word in ["false", "0", "no", "n", "FALSE", "No", "N"] {
        assert!(!env_bool(Some(word), true), "{word:?}");
    }
}

#[test]
fn env_bool_falls_back_to_the_default() {
    for default in [true, false] {
        assert_eq!(env_bool(None, default), default);
        for word in ["", "maybe", "2", " true", "true ", "on", "off", "yess"] {
            assert_eq!(env_bool(Some(word), default), default, "{word:?}");
        }
    }
}

#[test]
fn flag_from_lowercase_does_not_fold_case() {
    assert!(flag_from_lowercase("true", false));
    assert!(!flag_from_lowercase("TRUE", false));
    assert!(flag_from_lowercase("NO", true));
    assert!(!flag_from_lowercase("no", true));
}

#[test]
fn env_u64_reads_or_falls_back() {
    assert_eq!(env_u64(Some("42"), 7), 42);
    assert_eq!(env_u64(Some("+42"), 7), 42);
    assert_eq!(env_u64(Some("18446744073709551615"), 7), u64::MAX);
    assert_eq!(env_u64(Some("18446744073709551616"), 7), 7);
    assert_eq!(env_u64(Some("-1"), 7), 7);
    assert_eq!(env_u64(Some(""), 7), 7);
    assert_eq!(env_u64(Some(" 42"), 7), 7);
    assert_eq!(env_u64(Some("4.2"), 7), 7);
    assert_eq!(env_u64(None, 7), 7);
}

#[test]
fn env_u16_reads_or_falls_back() {
    assert_eq!(env_u16(Some("500"), 1), 500);
    assert_eq!(env_u16(Some("0"), 1), 0);
    assert_eq!(env_u16(Some("65535"), 1), 65535);
    assert_eq!(env_u16(Some("65536"), 1), 1);
    assert_eq!(env_u16(Some("abc"), 500), 500);
    assert_eq!(env_u16(None, 500), 500);
}

#[test]
fn parse_pubkey_reads_base58() {
    let id = parse_pubkey("TARGET_PUBKEY", "11111111111111111111111111111111").unwrap();
    assert_eq!(id.bytes, [0u8; 32]);
    let id = parse_pubkey("TARGET_PUBKEY", "So11111111111111111111111111111111111111112").unwrap();
    assert_eq!(id.to_text(), "So11111111111111111111111111111111111111112");
    assert_ne!(id.bytes, [0u8; 32]);
}

#[test]
fn parse_pubkey_names_the_setting_it_refuses() {
    assert_eq!(
        parse_pubkey("TARGET_PUBKEY", "not a key"),
        Err(ConfigError::InvalidPubkey {
            key: "TARGET_PUBKEY".to_string(),
            reason: ParseAccountError::Invalid,
        })
    );
    assert_eq!(
        parse_pubkey("WALLET", "abc"),
        Err(ConfigError::InvalidPubkey {
            key: "WALLET".to_string(),
            reason: ParseAccountError::WrongSize,
        })
    );
    assert_eq!(
        parse_pubkey("WALLET", "So11111111111111111111111111111111111111112222"),
        Err(ConfigError::InvalidPubkey {
            key: "WALLET".to_string(),
            reason: ParseAccountError::WrongSize,
        })
    );
}

#[test]
fn settings_fall_back_to_their_defaults() {
    assert_eq!(DEFAULT_SLIPPAGE_BPS, 500);
    assert_eq!(Some(default_max_buy()), Amount::parse("0.02"));
    assert_eq!(sol_to_lamports(default_max_buy()), Ok(20_000_000));
    assert_eq!(
        settings_from(found(Some("wss://feed"), Some(TARGET))),
        Ok(Settings {
            rpc_websocket_endpoint: "wss://feed".to_string(),
            target_pubkey: TARGET.to_string(),
            target: AccountId::parse(TARGET).unwrap(),
            slippage_bps: 500,
            max_buy_sol: default_max_buy(),
            mirror_buys_only: true,
        })
    );
    let mut raw = found(Some("wss://feed"), Some(TARGET));
    raw.slippage_bps = Some("many".to_string());
    raw.mirror_buys_only = Some("perhaps".to_string());
    let settings = settings_from(raw).unwrap();
    assert_eq!(settings.slippage_bps, 500);
    assert!(settings.mirror_buys_only);
}

#[test]
fn settings_take_the_values_found() {
    let mut raw = found(Some("wss://feed"), Some(TARGET));
    raw.slippage_bps = Some("25".to_string());
    raw.max_buy_sol = Amount::parse("0.05");
    raw.mirror_buys_only = Some("NO".to_string());
    let settings = settings_from(raw).unwrap();
    assert_eq!(settings.slippage_bps, 25);
    assert_eq!(Some(settings.max_buy_sol), Amount::parse("0.05"));
    assert!(!settings.mirror_buys_only);
    let mut raw = found(Some("wss://feed"), Some(TARGET));
    raw.max_buy_sol = Amount::parse("-1");
    assert_eq!(Some(settings_from(raw).unwrap().max_buy_sol), Amount::parse("-1"));
}

#[test]
fn required_settings_are_asked_for_in_order() {
    let missing = |key: &str| Err(ConfigError::Missing { key: key.to_string() });
    assert_eq!(settings_from(found(None, None)), missing("RPC_WEBSOCKET_ENDPOINT"));
    assert_eq!(settings_from(found(None, Some(TARGET))), missing("RPC_WEBSOCKET_ENDPOINT"));
    assert_eq!(settings_from(found(None, Some("junk!"))), missing("RPC_WEBSOCKET_ENDPOINT"));
    assert_eq!(settings_from(found(Some("wss://feed"), None)), missing("TARGET_PUBKEY"));
    assert_eq!(
        settings_from(found(Some("wss://feed"), Some("junk!"))),
        Err(ConfigError::InvalidPubkey {
            key: "TARGET_PUBKEY".to_string(),
            reason: ParseAccountError::Invalid,
        })
    );
}

#[test]
fn a_decoded_key_keeps_the_name_of_its_setting() {
    let id = AccountId::parse(TARGET).unwrap();
    assert_eq!(pubkey_from_decoded("K", Ok(id)), Ok(id));
    assert_eq!(
        pubkey_from_decoded("K", Err(ParseAccountError::WrongSize)),
        Err(ConfigError::InvalidPubkey { key: "K".to_string(), reason: ParseAccountError::WrongSize })
    );
}
