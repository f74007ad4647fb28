use vstd::prelude::*;
use base64::Engine;
use solana_sdk::signature::Keypair;
use solana_sdk::transaction::VersionedTransaction;
use crate::wallet::Wallet;

verus! {

/// Why a swap transaction was not made ready for submission.
#[derive(Debug, Clone, Copy, PartialEq, Eq)]
pub enum TransactionError {
    /// The text is not base64.
    NotBase64,
    /// The bytes do not encode a transaction.
    Malformed,
    /// The operator's key is not the signer that the transaction asks for.
    SigningRefused,
    /// The signed transaction does not read back as the one that was
    /// decoded, with the block reference asked for and signatures that
    /// hold.
    NotRefreshed,
}

/// The bytes that the base64 text `s` stands for, if it is base64.
pub uninterp spec fn base64_decoded(s: Seq<char>) -> Option<Seq<u8>>;

/// The block reference inside the transaction that `wire` encodes, if
/// `wire` encodes a transaction.
pub uninterp spec fn wire_blockhash(wire: Seq<u8>) -> Option<Seq<u8>>;

/// Decodes base64 text.
///
/// Calls `Engine::decode` of `base64` on the standard alphabet with
/// padding; the contract gives the bytes the name `base64_decoded`, and
/// `None` where the engine reports an error.
#[verifier::external_body]
pub(crate) fn decode_base64(s: &str) -> (r: Option<Vec<u8>>)
    ensures
        match r {
            Some(bytes) => base64_decoded(s@) == Some(bytes@),
            None => base64_decoded(s@) is None,
        },
{
    match base64::engine::general_purpose::STANDARD.decode(s) {
        Ok(bytes) => Some(bytes),
        Err(_) => None,
    }
}

/// The encoding of the transaction that `wire` encodes, once its block
/// reference is replaced by `blockhash`; none if `wire` encodes no
/// transaction.
pub uninterp spec fn refreshed_wire(wire: Seq<u8>, blockhash: Seq<u8>) -> Option<Seq<u8>>;

/// The encoding of the transaction that `wire` encodes, once its message
/// is signed anew with the key pair `key`; none if `wire` encodes no
/// transaction, `key` is no key pair, or the key pair is not the signer
/// that the message asks for.
pub uninterp spec fn signed_wire(wire: Seq<u8>, key: Seq<u8>) -> Option<Seq<u8>>;

/// The encoding of the message of the transaction that `wire` encodes,
/// once its block reference is set to `blockhash`.
pub uninterp spec fn message_under(wire: Seq<u8>, blockhash: Seq<u8>) -> Option<Seq<u8>>;

/// For each signature of the transaction that `wire` encodes, whether it
/// holds for the message and the account key in its place.
pub uninterp spec fn wire_verifications(wire: Seq<u8>) -> Option<Seq<bool>>;

/// Replaces the block reference of an encoded transaction.
///
/// Decodes with `bincode::deserialize`, calls
/// `VersionedMessage::set_recent_blockhash`, which writes the field of a
/// legacy message and of a versioned one alike, and encodes with
/// `bincode::serialize`; the contract gives the bytes the name
/// `refreshed_wire`, and `None` where decoding or encoding fails.
#[verifier::external_body]
pub(crate) fn refresh_wire(wire: &[u8], blockhash: &[u8; 32]) -> (r: Option<Vec<u8>>)
    ensures
        match r {
            Some(fresh) => refreshed_wire(wire@, blockhash@) == Some(fresh@),
            None => refreshed_wire(wire@, blockhash@) is None,
        },
{
    let mut tx = bincode::deserialize::<VersionedTransaction>(wire).ok()?;
    tx.message.set_recent_blockhash(solana_sdk::hash::Hash::new_from_array(*blockhash));
    bincode::serialize(&tx).ok()
}

/// Signs an encoded transaction anew.
///
/// Decodes the transaction with `bincode::deserialize` and the key pair
/// with `Keypair::try_from`, calls `VersionedTransaction::try_new` on the
/// message, which yields a transaction with the new signatures and none
/// of the old, and encodes with `bincode::serialize`; the contract gives
/// the bytes the name `signed_wire`, and `None` where a step fails.
#[verifier::external_body]
pub(crate) fn sign_wire(wire: &[u8], key: &[u8]) -> (r: Option<Vec<u8>>)
    ensures
        match r {
            Some(signed) => signed_wire(wire@, key@) == Some(signed@),
            None => signed_wire(wire@, key@) is None,
        },
{
    let tx = bincode::deserialize::<VersionedTransaction>(wire).ok()?;
    let wallet = Keypair::try_from(key).ok()?;
    let signed = VersionedTransaction::try_new(tx.message, &[&wallet]).ok()?;
    bincode::serialize(&signed).ok()
}

/// Reads the message out of an encoded transaction, with a given block
/// reference in it.
///
/// Decodes with `bincode::deserialize`, calls
/// `VersionedMessage::set_recent_blockhash` and then
/// `VersionedMessage::serialize`; the contract gives the bytes the name
/// `message_under`, and `None` where the bytes do not decode.
#[verifier::external_body]
pub(crate) fn read_message_under(wire: &[u8], blockhash: &[u8; 32]) -> (r: Option<Vec<u8>>)
    ensures
        match r {
            Some(message) => message_under(wire@, blockhash@) == Some(message@),
            None => message_under(wire@, blockhash@) is None,
        },
{
    let mut tx = bincode::deserialize::<VersionedTransaction>(wire).ok()?;
    tx.message.set_recent_blockhash(solana_sdk::hash::Hash::new_from_array(*blockhash));
    Some(tx.message.serialize())
}

/// Checks the signatures of an encoded transaction.
///
/// Decodes with `bincode::deserialize` and calls
/// `VersionedTransaction::verify_with_results`; the contract gives the
/// answers the name `wire_verifications`, and `None` where the bytes do
/// not decode.
#[verifier::external_body]
pub(crate) fn read_verifications(wire: &[u8]) -> (r: Option<Vec<bool>>)
    ensures
        match r {
            Some(answers) => wire_verifications(wire@) == Some(answers@),
            None => wire_verifications(wire@) is None,
        },
{
    let tx = bincode::deserialize::<VersionedTransaction>(wire).ok()?;
    Some(tx.verify_with_results())
}

/// Reads the block reference out of an encoded transaction.
///
/// Calls `bincode::deserialize` for a `VersionedTransaction` and then
/// `VersionedMessage::recent_blockhash`; the contract gives the 32 bytes
/// the name `wire_blockhash`, and `None` where the bytes do not decode.
#[verifier::external_body]
pub(crate) fn read_blockhash(wire: &[u8]) -> (r: Option<[u8; 32]>)
    ensures
        match r {
            Some(h) => wire_blockhash(wire@) == Some(h@),
            None => wire_blockhash(wire@) is None,
        },
{
    match bincode::deserialize::<VersionedTransaction>(wire) {
        Ok(tx) => Some(tx.message.recent_blockhash().to_bytes()),
        Err(_) => None,
    }
}

/// Whether two runs of bytes are the same.
pub fn same_bytes(a: &[u8], b: &[u8]) -> (r: bool)
    ensures
        r == (a@ == b@),
{
    if a.len() != b.len() {
        return false;
    }
    let mut i: usize = 0;
    while i < a.len()
        invariant
            i <= a.len(),
            a.len() == b.len(),
            forall|k: int| 0 <= k < i ==> a@[k] == b@[k],
        decreases a.len() - i,
    {
        if a[i] != b[i] {
            return false;
        }
        i += 1;
    }
    assert(a@ =~= b@);
    true
}

/// There is at least one signature, and every signature holds.
pub open spec fn all_hold(answers: Seq<bool>) -> bool {
    answers.len() >= 1 && forall|i: int| 0 <= i < answers.len() ==> answers[i]
}

/// Whether there is at least one signature and every signature holds.
pub fn every_signature_holds(answers: &Vec<bool>) -> (r: bool)
    ensures
        r == all_hold(answers@),
{
    if answers.len() == 0 {
        return false;
    }
    let mut i: usize = 0;
    while i < answers.len()
        invariant
            i <= answers.len(),
            forall|k: int| 0 <= k < i ==> answers@[k],
        decreases answers.len() - i,
    {
        if !answers[i] {
            return false;
        }
        i += 1;
    }
    true
}

/// What was read back from a signed transaction shows it to be sound: it
/// carries the block reference `latest`, its message is the one expected,
/// and its signatures hold.
pub open spec fn reads_sound(
    blockhash: Option<Seq<u8>>,
    message: Option<Seq<u8>>,
    expected: Option<Seq<u8>>,
    answers: Option<Seq<bool>>,
    latest: Seq<u8>,
) -> bool {
    &&& blockhash == Some(latest)
    &&& message is Some
    &&& message == expected
    &&& answers matches Some(a)
    &&& all_hold(a)
}

/// The signed transaction `signed` is the transaction `wire` with the
/// block reference `latest` and signatures that hold: apart from the
/// block reference, its message is the one that `wire` carries.
pub open spec fn is_sound(signed: Seq<u8>, wire: Seq<u8>, latest: Seq<u8>) -> bool {
    reads_sound(
        wire_blockhash(signed),
        message_under(signed, latest),
        message_under(wire, latest),
        wire_verifications(signed),
        latest,
    )
}

/// The view of optional bytes.
pub open spec fn bytes_of(value: Option<Vec<u8>>) -> Option<Seq<u8>> {
    match value {
        Some(v) => Some(v@),
        None => None,
    }
}

/// The view of an optional block reference.
pub open spec fn hash_of(value: Option<[u8; 32]>) -> Option<Seq<u8>> {
    match value {
        Some(v) => Some(v@),
        None => None,
    }
}

/// The view of optional answers.
pub open spec fn answers_of(value: Option<Vec<bool>>) -> Option<Seq<bool>> {
    match value {
        Some(v) => Some(v@),
        None => None,
    }
}

/// Releases a signed transaction for submission only if what was read
/// back from it shows it to be sound.
pub fn release(
    signed: Vec<u8>,
    blockhash: Option<[u8; 32]>,
    message: Option<Vec<u8>>,
    expected: Option<Vec<u8>>,
    answers: Option<Vec<bool>>,
    latest: &[u8; 32],
) -> (r: Result<Vec<u8>, TransactionError>)
    ensures
        r == (if reads_sound(
            hash_of(blockhash),
            bytes_of(message),
            bytes_of(expected),
            answers_of(answers),
            latest@,
        ) {
            Ok::<Vec<u8>, TransactionError>(signed)
        } else {
            Err::<Vec<u8>, TransactionError>(TransactionError::NotRefreshed)
        }),
{
    let carries = match blockhash {
        Some(h) => same_bytes(h.as_slice(), latest.as_slice()),
        None => false,
    };
    let unchanged = match (message, expected) {
        (Some(m), Some(e)) => same_bytes(m.as_slice(), e.as_slice()),
        _ => false,
    };
    let holds = match answers {
        Some(a) => every_signature_holds(&a),
        None => false,
    };
    if carries && unchanged && holds {
        Ok(signed)
    } else {
        Err(TransactionError::NotRefreshed)
    }
}

/// What decoding a swap transaction yields: the bytes that the base64
/// text stands for, provided they encode a transaction.
pub open spec fn decode_swap_spec(swap_b64: Seq<char>) -> Result<Seq<u8>, TransactionError> {
    match base64_decoded(swap_b64) {
        None => Err(TransactionError::NotBase64),
        Some(bytes) => if wire_blockhash(bytes) is Some {
            Ok(bytes)
        } else {
            Err(TransactionError::Malformed)
        },
    }
}

/// Decodes the swap transaction that the exchange sent as base64 text.
pub fn decode_swap(swap_b64: &str) -> (r: Result<Vec<u8>, TransactionError>)
    ensures
        match r {
            Ok(wire) => decode_swap_spec(swap_b64@) == Ok::<Seq<u8>, TransactionError>(wire@),
            Err(e) => decode_swap_spec(swap_b64@) == Err::<Seq<u8>, TransactionError>(e),
        },
{
    let bytes = match decode_base64(swap_b64) {
        Some(bytes) => bytes,
        None => {
            return Err(TransactionError::NotBase64);
        },
    };
    match read_blockhash(bytes.as_slice()) {
        Some(_) => Ok(bytes),
        None => Err(TransactionError::Malformed),
    }
}

/// What refreshing and signing yields: the transaction `wire` with the
/// block reference `latest`, signed anew with the key pair `key`, provided
/// it reads back sound.
pub open spec fn refresh_and_sign_spec(wire: Seq<u8>, latest: Seq<u8>, key: Seq<u8>) -> Result<
    Seq<u8>,
    TransactionError,
> {
    match refreshed_wire(wire, latest) {
        None => Err(TransactionError::Malformed),
        Some(fresh) => match signed_wire(fresh, key) {
            None => Err(TransactionError::SigningRefused),
            Some(signed) => if is_sound(signed, wire, latest) {
                Ok(signed)
            } else {
                Err(TransactionError::NotRefreshed)
            },
        },
    }
}

/// Replaces the block reference of an encoded transaction by `latest` and
/// signs the transaction anew with the operator's key.
///
/// What comes back has been read back: it carries `latest`, whatever
/// block reference `wire` carried, the rest of its message is that of
/// `wire`, and its signatures hold.
pub fn refresh_and_sign(wire: &[u8], latest: &[u8; 32], wallet: &Wallet) -> (r: Result<
    Vec<u8>,
    TransactionError,
>)
    ensures
        match r {
            Ok(signed) => refresh_and_sign_spec(wire@, latest@, wallet.key()) == Ok::<
                Seq<u8>,
                TransactionError,
            >(signed@),
            Err(e) => refresh_and_sign_spec(wire@, latest@, wallet.key()) == Err::<
                Seq<u8>,
                TransactionError,
            >(e),
        },
{
    let fresh = match refresh_wire(wire, latest) {
        Some(fresh) => fresh,
        None => {
            return Err(TransactionError::Malformed);
        },
    };
    let signed = match sign_wire(fresh.as_slice(), wallet.to_bytes().as_slice()) {
        Some(signed) => signed,
        None => {
            return Err(TransactionError::SigningRefused);
        },
    };
    let blockhash = read_blockhash(signed.as_slice());
    let message = read_message_under(signed.as_slice(), latest);
    let expected = read_message_under(wire, latest);
    let answers = read_verifications(signed.as_slice());
    release(signed, blockhash, message, expected, answers, latest)
}

/// What making a swap transaction ready yields: decoding, then
/// refreshing and signing.
pub open spec fn prepare_spec(swap_b64: Seq<char>, latest: Seq<u8>, key: Seq<u8>) -> Result<
    Seq<u8>,
    TransactionError,
> {
    match decode_swap_spec(swap_b64) {
        Err(e) => Err(e),
        Ok(wire) => refresh_and_sign_spec(wire, latest, key),
    }
}

/// Makes a swap transaction ready for submission: decodes it, replaces its
/// block reference by `latest` and signs it anew.
pub fn prepare_submission(swap_b64: &str, latest: &[u8; 32], wallet: &Wallet) -> (r: Result<
    Vec<u8>,
    TransactionError,
>)
    ensures
        match r {
            Ok(signed) => prepare_spec(swap_b64@, latest@, wallet.key()) == Ok::<
                Seq<u8>,
                TransactionError,
            >(signed@),
            Err(e) => prepare_spec(swap_b64@, latest@, wallet.key()) == Err::<
                Seq<u8>,
                TransactionError,
            >(e),
        },
{
    match decode_swap(swap_b64) {
        Ok(wire) => refresh_and_sign(wire.as_slice(), latest, wallet),
        Err(e) => Err(e),
    }
}

/// A transaction that is handed out for submission carries the block
/// reference that was asked for, never the one it came with; the rest of
/// its message is the one it came with; and its signatures hold.
pub proof fn lemma_released_is_fresh(wire: Seq<u8>, latest: Seq<u8>, key: Seq<u8>)
    requires
        refresh_and_sign_spec(wire, latest, key) is Ok,
    ensures
        wire_blockhash(refresh_and_sign_spec(wire, latest, key)->Ok_0) == Some(latest),
        message_under(refresh_and_sign_spec(wire, latest, key)->Ok_0, latest) == message_under(
            wire,
            latest,
        ),
        wire_verifications(refresh_and_sign_spec(wire, latest, key)->Ok_0) matches Some(a)
            && all_hold(a),
{
}

} // verus!
