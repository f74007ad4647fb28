use vstd::prelude::*;
use solana_sdk::signature::Keypair;
use crate::decimal::{parse_unsigned, unsigned_of};
use crate::json::{json_of_text, parse_json, Json};
use crate::text::chars_of;

verus! {

/// Why a text yields no key pair.
#[derive(Debug, Clone, Copy, PartialEq, Eq)]
pub enum WalletError {
    /// The text starts like a list and is no JSON list of bytes.
    NotAByteList,
    /// The text is not base58.
    NotBase58,
    /// The bytes are no key pair.
    NotAKeyPair,
}

/// Whether `c` is white space: one of the characters that have the
/// Unicode property of that name.
pub open spec fn is_white_space(c: char) -> bool {
    let n = c as u32;
    (0x09 <= n <= 0x0D) || n == 0x20 || n == 0x85 || n == 0xA0 || n == 0x1680 || (0x2000 <= n
        <= 0x200A) || n == 0x2028 || n == 0x2029 || n == 0x202F || n == 0x205F || n == 0x3000
}

/// Every character of `s` is white space.
pub open spec fn all_white_space(s: Seq<char>) -> bool {
    forall|i: int| 0 <= i < s.len() ==> is_white_space(#[trigger] s[i])
}

/// `s` without the white space at its start.
pub open spec fn without_leading(s: Seq<char>) -> Seq<char>
    decreases s.len(),
{
    if s.len() > 0 && is_white_space(s[0]) {
        without_leading(s.drop_first())
    } else {
        s
    }
}

/// `s` without the white space at its end.
pub open spec fn without_trailing(s: Seq<char>) -> Seq<char>
    decreases s.len(),
{
    if s.len() > 0 && is_white_space(s.last()) {
        without_trailing(s.drop_last())
    } else {
        s
    }
}

/// `s` without the white space at its ends.
pub open spec fn trimmed(s: Seq<char>) -> Seq<char> {
    without_trailing(without_leading(s))
}

/// The bytes that the base58 text `s` stands for, if it is base58.
pub uninterp spec fn base58_decoded(s: Seq<char>) -> Option<Seq<u8>>;

/// Removes white space from both ends of a text.
///
/// Calls `str::trim` of the standard library, which removes the leading
/// and the trailing characters that have the Unicode property of white
/// space; the contract says so, with the characters written out.
#[verifier::external_body]
pub(crate) fn trim(s: &str) -> (r: &str)
    ensures
        r@ == trimmed(s@),
{
    s.trim()
}

/// Decodes base58 text.
///
/// Calls `bs58::decode` on the default alphabet and collects the bytes;
/// the contract gives them the name `base58_decoded`, and `None` where the
/// decoder reports an error.
#[verifier::external_body]
pub(crate) fn decode_base58(s: &str) -> (r: Option<Vec<u8>>)
    ensures
        match r {
            Some(bytes) => base58_decoded(s@) == Some(bytes@),
            None => base58_decoded(s@) is None,
        },
{
    solana_sdk::bs58::decode(s).into_vec().ok()
}

/// Whether `bytes` are a key pair: a secret key followed by the public key
/// that belongs to it.
pub uninterp spec fn keypair_accepts(bytes: Seq<u8>) -> bool;

/// Tells whether bytes are a key pair.
///
/// Calls `Keypair::try_from` of `solana_sdk` and reports whether it
/// succeeds; the contract gives that answer the name `keypair_accepts`.
#[verifier::external_body]
pub(crate) fn is_keypair(bytes: &[u8]) -> (r: bool)
    ensures
        r == keypair_accepts(bytes@),
{
    Keypair::try_from(bytes).is_ok()
}

/// The operator's key pair, held as the bytes that make it up. It is not
/// printable, so that it cannot be logged by accident.
pub struct Wallet {
    bytes: Vec<u8>,
}

impl Wallet {
    /// The bytes held are a key pair.
    #[verifier::type_invariant]
    spec fn accepted(self) -> bool {
        keypair_accepts(self.bytes@)
    }

    /// The bytes of the key pair: the secret key, then the public key.
    pub closed spec fn key(self) -> Seq<u8> {
        self.bytes@
    }

    /// Takes bytes as a key pair, if they are one.
    pub fn from_bytes(bytes: Vec<u8>) -> (r: Result<Wallet, WalletError>)
        ensures
            match r {
                Ok(w) => keypair_accepts(bytes@) && w.key() == bytes@,
                Err(e) => !keypair_accepts(bytes@) && e == WalletError::NotAKeyPair,
            },
    {
        if is_keypair(bytes.as_slice()) {
            Ok(Wallet { bytes })
        } else {
            Err(WalletError::NotAKeyPair)
        }
    }

    /// The bytes of the key pair.
    pub fn to_bytes(&self) -> (r: &Vec<u8>)
        ensures
            r@ == self.key(),
            keypair_accepts(r@),
    {
        proof {
            use_type_invariant(self);
        }
        &self.bytes
    }
}

/// The bytes that a list of JSON numbers holds, if each is a whole number
/// from 0 to 255.
pub open spec fn byte_list(items: Seq<Json>) -> Option<Seq<u8>>
    decreases items.len(),
{
    if items.len() == 0 {
        Some(Seq::empty())
    } else {
        match (byte_list(items.drop_last()), items.last()) {
            (Some(front), Json::Number(n)) => match unsigned_of(n@) {
                Some(v) => if v <= 255 {
                    Some(front.push(v as u8))
                } else {
                    None
                },
                None => None,
            },
            _ => None,
        }
    }
}

/// The bytes of the key that a text holds: those of a JSON list where the
/// text, trimmed, starts with `[`, else those that it stands for in base58.
pub open spec fn key_bytes(raw: Seq<char>) -> Result<Seq<u8>, WalletError> {
    let text = trimmed(raw);
    if text.len() > 0 && text[0] == '[' {
        match json_of_text(text) {
            Some(Json::Array(items)) => match byte_list(items@) {
                Some(bytes) => Ok(bytes),
                None => Err(WalletError::NotAByteList),
            },
            _ => Err(WalletError::NotAByteList),
        }
    } else {
        match base58_decoded(text) {
            Some(bytes) => Ok(bytes),
            None => Err(WalletError::NotBase58),
        }
    }
}

/// Reads the bytes that a list of JSON numbers holds.
pub fn read_byte_list(items: &Vec<Json>) -> (r: Option<Vec<u8>>)
    ensures
        match r {
            Some(bytes) => byte_list(items@) == Some(bytes@),
            None => byte_list(items@) is None,
        },
{
    let mut out: Vec<u8> = Vec::new();
    let mut i: usize = 0;
    proof {
        assert(items@.take(0) =~= Seq::<Json>::empty());
    }
    while i < items.len()
        invariant
            i <= items.len(),
            byte_list(items@.take(i as int)) == Some(out@),
        decreases items.len() - i,
    {
        proof {
            assert(items@.take(i + 1).drop_last() =~= items@.take(i as int));
            assert(items@.take(i + 1).last() == items@[i as int]);
        }
        let read = match items[i].as_number() {
            Some(n) => parse_unsigned(n, 255),
            None => None,
        };
        match read {
            Some(v) => {
                out.push(v as u8);
            },
            None => {
                proof {
                    lemma_byte_list_fails_on(items@, i + 1);
                }
                return None;
            },
        }
        i += 1;
    }
    proof {
        assert(items@.take(i as int) =~= items@);
    }
    Some(out)
}

/// A list whose front holds no bytes holds none.
pub proof fn lemma_byte_list_fails_on(items: Seq<Json>, n: int)
    requires
        0 <= n <= items.len(),
        byte_list(items.take(n)) is None,
    ensures
        byte_list(items) is None,
    decreases items.len() - n,
{
    if n < items.len() {
        assert(items.take(n + 1).drop_last() =~= items.take(n));
        lemma_byte_list_fails_on(items, n + 1);
    } else {
        assert(items.take(n) =~= items);
    }
}

/// Reads the bytes of the key that a text holds, in either of its forms.
pub fn wallet_key_bytes(raw: &str) -> (r: Result<Vec<u8>, WalletError>)
    ensures
        match r {
            Ok(bytes) => key_bytes(raw@) == Ok::<Seq<u8>, WalletError>(bytes@),
            Err(e) => key_bytes(raw@) == Err::<Seq<u8>, WalletError>(e),
        },
{
    let text = trim(raw);
    let chars = chars_of(text);
    if chars.len() > 0 && chars[0] == '[' {
        match parse_json(text) {
            Some(Json::Array(items)) => match read_byte_list(&items) {
                Some(bytes) => Ok(bytes),
                None => Err(WalletError::NotAByteList),
            },
            _ => Err(WalletError::NotAByteList),
        }
    } else {
        match decode_base58(text) {
            Some(bytes) => Ok(bytes),
            None => Err(WalletError::NotBase58),
        }
    }
}

/// White space in front of a text is lost with the white space at its
/// start.
pub proof fn lemma_leading_white_space(a: Seq<char>, s: Seq<char>)
    requires
        all_white_space(a),
    ensures
        without_leading(a + s) == without_leading(s),
    decreases a.len(),
{
    if a.len() > 0 {
        assert((a + s)[0] == a[0]);
        assert((a + s).drop_first() =~= a.drop_first() + s);
        assert(all_white_space(a.drop_first())) by {
            assert forall|i: int| 0 <= i < a.drop_first().len() implies is_white_space(
                #[trigger] a.drop_first()[i],
            ) by {
                assert(a.drop_first()[i] == a[i + 1]);
            }
        }
        lemma_leading_white_space(a.drop_first(), s);
    } else {
        assert(a + s =~= s);
    }
}

/// White space behind a text is lost with the white space at its end.
pub proof fn lemma_trailing_white_space(s: Seq<char>, b: Seq<char>)
    requires
        all_white_space(b),
    ensures
        without_trailing(s + b) == without_trailing(s),
    decreases b.len(),
{
    if b.len() > 0 {
        assert((s + b).last() == b.last());
        assert((s + b).drop_last() =~= s + b.drop_last());
        assert(all_white_space(b.drop_last())) by {
            assert forall|i: int| 0 <= i < b.drop_last().len() implies is_white_space(
                #[trigger] b.drop_last()[i],
            ) by {
                assert(b.drop_last()[i] == b[i]);
            }
        }
        lemma_trailing_white_space(s, b.drop_last());
    } else {
        assert(s + b =~= s);
    }
}

/// White space behind a text does not change what is left of the text
/// without the white space at its ends.
pub proof fn lemma_trimmed_of_padded(s: Seq<char>, b: Seq<char>)
    requires
        all_white_space(b),
    ensures
        trimmed(s + b) == trimmed(s),
    decreases s.len(),
{
    if s.len() == 0 {
        assert(s + b =~= b + s);
        lemma_leading_white_space(b, s);
    } else if is_white_space(s[0]) {
        assert((s + b)[0] == s[0]);
        assert((s + b).drop_first() =~= s.drop_first() + b);
        lemma_trimmed_of_padded(s.drop_first(), b);
    } else {
        assert((s + b)[0] == s[0]);
        lemma_trailing_white_space(s, b);
    }
}

/// White space around a text does not matter to what is left of it
/// without the white space at its ends.
pub proof fn lemma_white_space_around(before: Seq<char>, s: Seq<char>, after: Seq<char>)
    requires
        all_white_space(before),
        all_white_space(after),
    ensures
        trimmed(before + s + after) == trimmed(s),
{
    assert(before + s + after =~= before + (s + after));
    lemma_leading_white_space(before, s + after);
    lemma_trimmed_of_padded(s, after);
}

/// A text without white space at its ends is left as it is.
pub proof fn lemma_trimmed_of_bare(s: Seq<char>)
    requires
        s.len() > 0 ==> !is_white_space(s[0]) && !is_white_space(s.last()),
    ensures
        trimmed(s) == s,
{
}

/// The key pair that a text holds: the bytes that it holds, provided they
/// are a key pair.
pub open spec fn wallet_spec(raw: Seq<char>) -> Result<Seq<u8>, WalletError> {
    match key_bytes(raw) {
        Err(e) => Err(e),
        Ok(bytes) => if keypair_accepts(bytes) {
            Ok(bytes)
        } else {
            Err(WalletError::NotAKeyPair)
        },
    }
}

/// White space around the text of a key does not matter to the key pair
/// that is read from it.
pub proof fn lemma_white_space_around_key(before: Seq<char>, raw: Seq<char>, after: Seq<char>)
    requires
        all_white_space(before),
        all_white_space(after),
    ensures
        key_bytes(before + raw + after) == key_bytes(raw),
        wallet_spec(before + raw + after) == wallet_spec(raw),
{
    lemma_white_space_around(before, raw, after);
}

/// Reads the operator's key pair from a text that holds it as a JSON list
/// of bytes or in base58, with or without white space around it.
///
/// Both forms of one key pair yield the same wallet.
pub fn import_wallet(raw: &str) -> (r: Result<Wallet, WalletError>)
    ensures
        match r {
            Ok(w) => wallet_spec(raw@) == Ok::<Seq<u8>, WalletError>(w.key()),
            Err(e) => wallet_spec(raw@) == Err::<Seq<u8>, WalletError>(e),
        },
{
    match wallet_key_bytes(raw) {
        Ok(bytes) => Wallet::from_bytes(bytes),
        Err(e) => Err(e),
    }
}

} // verus!
