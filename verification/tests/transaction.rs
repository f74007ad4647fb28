use ammalgram_assistant::transaction::{
    decode_swap, every_signature_holds, prepare_submission, refresh_and_sign, release, same_bytes,
    TransactionError,
};
use ammalgram_assistant::wallet::Wallet;
use base64::Engine;
use solana_sdk::instruction::{AccountMeta, Instruction};
use solana_sdk::message::{v0, Message, VersionedMessage};
use solana_sdk::pubkey::Pubkey;
use solana_sdk::signature::{Keypair, Signature};
use solana_sdk::signer::Signer;
use solana_sdk::transaction::VersionedTransaction;

const EMBEDDED: [u8; 32] = [3; 32];
const LATEST: [u8; 32] = [5; 32];

fn stale_signature() -> Signature {
    Signature::from([9u8; 64])
}

fn swap_transaction(payer: &Pubkey, versioned: bool) -> VersionedTransaction {
    let program = Pubkey::new_from_array([7; 32]);
    let instruction =
        Instruction::new_with_bytes(program, &[1, 2, 3], vec![AccountMeta::new(*payer, true)]);
    let embedded = solana_sdk::hash::Hash::new_from_array(EMBEDDED);
    let message = if versioned {
        VersionedMessage::V0(v0::Message::try_compile(payer, &[instruction], &[], embedded).unwrap())
    } else {
        VersionedMessage::Legacy(Message::new_with_blockhash(&[instruction], Some(payer), &embedded))
    };
    VersionedTransaction { signatures: vec![stale_signature()], message }
}

fn swap_b64(payer: &Pubkey, versioned: bool) -> String {
    let wire = bincode::serialize(&swap_transaction(payer, versioned)).unwrap();
    base64::engine::general_purpose::STANDARD.encode(wire)
}

fn wallet_of(keypair: &Keypair) -> Wallet {
    Wallet::from_bytes(keypair.to_bytes().to_vec()).ok().expect("a key pair")
}

fn read(wire: &[u8]) -> VersionedTransaction {
    bincode::deserialize(wire).unwrap()
}

#[test]
fn a_swap_transaction_is_decoded_from_base64() {
    let wallet = Keypair::new();
    for versioned in [false, true] {
        let expected = bincode::serialize(&swap_transaction(&wallet.pubkey(), versioned)).unwrap();
        assert_eq!(decode_swap(&swap_b64(&wallet.pubkey(), versioned)), Ok(expected));
    }
}

#[test]
fn what_is_no_swap_transaction_is_refused() {
    assert_eq!(decode_swap("***"), Err(TransactionError::NotBase64));
    assert_eq!(decode_swap("AAEC="), Err(TransactionError::NotBase64));
    assert_eq!(decode_swap(""), Err(TransactionError::Malformed));
    assert_eq!(decode_swap("AAEC"), Err(TransactionError::Malformed));
    let wallet = wallet_of(&Keypair::new());
    assert_eq!(prepare_submission("***", &LATEST, &wallet), Err(TransactionError::NotBase64));
    assert_eq!(prepare_submission("AAEC", &LATEST, &wallet), Err(TransactionError::Malformed));
    assert_eq!(refresh_and_sign(&[0, 1, 2], &LATEST, &wallet), Err(TransactionError::Malformed));
}

#[test]
fn the_block_reference_is_replaced_by_the_latest() {
    let wallet = Keypair::new();
    for versioned in [false, true] {
        let before = swap_transaction(&wallet.pubkey(), versioned);
        assert_eq!(before.message.recent_blockhash().to_bytes(), EMBEDDED);
        let wire = prepare_submission(&swap_b64(&wallet.pubkey(), versioned), &LATEST, &wallet_of(&wallet)).unwrap();
        let after = read(&wire);
        assert_eq!(after.message.recent_blockhash().to_bytes(), LATEST);
        assert_eq!(after.message.instructions(), before.message.instructions());
        assert_eq!(after.message.static_account_keys(), before.message.static_account_keys());
        assert_eq!(matches!(after.message, VersionedMessage::V0(_)), versioned);
    }
}

#[test]
fn the_transaction_is_signed_anew() {
    let wallet = Keypair::new();
    for versioned in [false, true] {
        let wire = prepare_submission(&swap_b64(&wallet.pubkey(), versioned), &LATEST, &wallet_of(&wallet)).unwrap();
        let after = read(&wire);
        assert_eq!(after.signatures.len(), 1);
        assert_ne!(after.signatures[0], stale_signature());
        assert_eq!(after.verify_with_results(), vec![true]);
    }
}

#[test]
fn refreshing_twice_keeps_the_last_block_reference() {
    let wallet = Keypair::new();
    let first = prepare_submission(&swap_b64(&wallet.pubkey(), true), &LATEST, &wallet_of(&wallet)).unwrap();
    let second = refresh_and_sign(&first, &[8; 32], &wallet_of(&wallet)).unwrap();
    assert_eq!(read(&second).message.recent_blockhash().to_bytes(), [8; 32]);
    assert_eq!(read(&second).verify_with_results(), vec![true]);
}

#[test]
fn a_wallet_that_is_not_the_signer_is_refused() {
    let payer = Keypair::new();
    let other = Keypair::new();
    assert_eq!(
        prepare_submission(&swap_b64(&payer.pubkey(), false), &LATEST, &wallet_of(&other)),
        Err(TransactionError::SigningRefused)
    );
}

#[test]
fn what_comes_back_is_the_decoded_transaction_refreshed() {
    let wallet = Keypair::new();
    for versioned in [false, true] {
        let before = swap_transaction(&wallet.pubkey(), versioned);
        let wire = bincode::serialize(&before).unwrap();
        let signed = refresh_and_sign(&wire, &LATEST, &wallet_of(&wallet)).unwrap();
        let mut expected = before.message.clone();
        expected.set_recent_blockhash(solana_sdk::hash::Hash::new_from_array(LATEST));
        assert_eq!(read(&signed).message, expected);
        // signing is a function of the bytes and the key
        assert_eq!(refresh_and_sign(&wire, &LATEST, &wallet_of(&wallet)), Ok(signed));
    }
}

#[test]
fn only_a_sound_transaction_is_released() {
    let sound = |blockhash, message, expected, answers| {
        release(vec![1, 2], blockhash, message, expected, answers, &LATEST)
    };
    let refused = Err(TransactionError::NotRefreshed);
    assert_eq!(sound(Some(LATEST), Some(vec![7]), Some(vec![7]), Some(vec![true])), Ok(vec![1, 2]));
    assert_eq!(sound(Some(LATEST), Some(vec![]), Some(vec![]), Some(vec![true, true])), Ok(vec![1, 2]));
    assert_eq!(sound(Some(EMBEDDED), Some(vec![7]), Some(vec![7]), Some(vec![true])), refused);
    assert_eq!(sound(None, Some(vec![7]), Some(vec![7]), Some(vec![true])), refused);
    assert_eq!(sound(Some(LATEST), Some(vec![7]), Some(vec![8]), Some(vec![true])), refused);
    assert_eq!(sound(Some(LATEST), Some(vec![7]), Some(vec![7, 0]), Some(vec![true])), refused);
    assert_eq!(sound(Some(LATEST), None, Some(vec![7]), Some(vec![true])), refused);
    assert_eq!(sound(Some(LATEST), Some(vec![7]), None, Some(vec![true])), refused);
    assert_eq!(sound(Some(LATEST), None, None, Some(vec![true])), refused);
    assert_eq!(sound(Some(LATEST), Some(vec![7]), Some(vec![7]), Some(vec![true, false])), refused);
    assert_eq!(sound(Some(LATEST), Some(vec![7]), Some(vec![7]), Some(vec![])), refused);
    assert_eq!(sound(Some(LATEST), Some(vec![7]), Some(vec![7]), None), refused);
}

#[test]
fn signatures_hold_only_if_each_holds() {
    assert!(every_signature_holds(&vec![true]));
    assert!(every_signature_holds(&vec![true, true, true]));
    assert!(!every_signature_holds(&vec![]));
    assert!(!every_signature_holds(&vec![false]));
    assert!(!every_signature_holds(&vec![true, true, false]));
    assert!(!every_signature_holds(&vec![false, true]));
}

#[test]
fn bytes_are_compared_one_by_one() {
    assert!(same_bytes(&LATEST, &[5; 32]));
    assert!(!same_bytes(&LATEST, &EMBEDDED));
    let mut other = LATEST;
    other[31] = 6;
    assert!(!same_bytes(&LATEST, &other));
    other = LATEST;
    other[0] = 6;
    assert!(!same_bytes(&LATEST, &other));
    assert!(!same_bytes(&LATEST, &LATEST[..31]));
    assert!(same_bytes(&[], &[]));
    assert!(!same_bytes(&[], &[0]));
}
