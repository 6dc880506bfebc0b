//! Key agreement on Curve25519 with a symmetric key as its result: an X25519 key pair, the
//! key that two pairs derive, and sealing and opening under that key.

use crate::enc_utils::{
    aes256_gcm_open, aes256_gcm_opened, aes256_gcm_seal, bytes_result_view, deserialized_public_key,
    key_result_view, random_bytes, sealed_message, to_array, x25519_agree, x25519_public,
    x25519_public_key, x25519_random_secret, x25519_shared, EncError, KEY_LEN, NONCE_LEN, TAG_LEN,
};
use vstd::prelude::*;
use vstd::slice::{slice_subrange, slice_to_vec};

verus! {

/// An X25519 key pair.
#[derive(Clone, Debug, PartialEq, Eq)]
pub struct KeyPair {
    pub private_key: [u8; 32],
    pub public_key: [u8; 32],
}

/// A symmetric key that two key pairs derived.
#[derive(Clone, Debug, PartialEq, Eq)]
pub struct SymmetricKey {
    key: [u8; 32],
}

impl View for SymmetricKey {
    type V = Seq<u8>;

    closed spec fn view(&self) -> Seq<u8> {
        self.key@
    }
}

/// What `SymmetricKey::decrypt` returns under the key `key`.
pub open spec fn opened_under(key: Seq<u8>, combined: Seq<u8>) -> Result<Seq<u8>, EncError> {
    if combined.len() < NONCE_LEN {
        Err(EncError::DataTooShort)
    } else {
        match aes256_gcm_opened(
            key,
            combined.take(NONCE_LEN as int),
            combined.skip(NONCE_LEN as int),
        ) {
            Some(data) => Ok(data),
            None => Err(EncError::Decryption),
        }
    }
}

/// What `SymmetricKey::encrypt_with_nonce` returns under the key `key`.
pub open spec fn sealed_under(key: Seq<u8>, nonce: Seq<u8>, plaintext: Seq<u8>) -> Result<
    Seq<u8>,
    EncError,
> {
    match sealed_message(key, nonce, plaintext) {
        Some(message) => Ok(message),
        None => Err(EncError::Encryption),
    }
}

impl SymmetricKey {
    /// Seals `plaintext` with the given nonce. The result is the nonce followed by the
    /// ciphertext and its tag, and opens to `plaintext` again under this key.
    pub fn encrypt_with_nonce(&self, plaintext: &[u8], nonce: &[u8; 12]) -> (sealed: Result<
        Vec<u8>,
        EncError,
    >)
        ensures
            bytes_result_view(sealed) == sealed_under(self@, nonce@, plaintext@),
            sealed matches Ok(message) ==> {
                &&& message@.len() == NONCE_LEN + plaintext@.len() + TAG_LEN
                &&& opened_under(self@, message@) == Ok::<Seq<u8>, EncError>(plaintext@)
            },
    {
        match aes256_gcm_seal(&self.key, nonce, plaintext) {
            Ok(ciphertext) => {
                let mut message = slice_to_vec(nonce.as_slice());
                message.extend_from_slice(ciphertext.as_slice());
                assert(message@ =~= nonce@ + ciphertext@);
                assert(message@.take(NONCE_LEN as int) =~= nonce@);
                assert(message@.skip(NONCE_LEN as int) =~= ciphertext@);
                Ok(message)
            },
            Err(_) => Err(EncError::Encryption),
        }
    }

    /// Seals `plaintext` with a fresh random nonce.
    pub fn encrypt(&self, plaintext: &[u8]) -> (sealed: Result<Vec<u8>, EncError>)
        ensures
            exists|nonce: Seq<u8>|
                nonce.len() == NONCE_LEN && bytes_result_view(sealed) == #[trigger] sealed_under(
                    self@,
                    nonce,
                    plaintext@,
                ),
            sealed matches Ok(message) ==> {
                &&& message@.len() == NONCE_LEN + plaintext@.len() + TAG_LEN
                &&& opened_under(self@, message@) == Ok::<Seq<u8>, EncError>(plaintext@)
            },
    {
        let nonce: [u8; 12] = random_bytes::<12>();
        self.encrypt_with_nonce(plaintext, &nonce)
    }

    /// Opens a message that was sealed under this key.
    pub fn decrypt(&self, combined: &[u8]) -> (opened: Result<Vec<u8>, EncError>)
        ensures
            bytes_result_view(opened) == opened_under(self@, combined@),
    {
        if combined.len() < 12 {
            return Err(EncError::DataTooShort);
        }
        let nonce: [u8; 12] = match to_array::<12>(slice_subrange(combined, 0, 12)) {
            Some(nonce) => nonce,
            None => {
                return Err(EncError::DataTooShort);
            },
        };
        let ciphertext = slice_subrange(combined, 12, combined.len());
        match aes256_gcm_open(&self.key, &nonce, ciphertext) {
            Ok(data) => Ok(data),
            Err(_) => Err(EncError::Decryption),
        }
    }
}

/// A new key pair with a random private key.
pub fn generate_keypair() -> (pair: KeyPair)
    ensures
        pair.public_key@ == x25519_public_key(pair.private_key@),
{
    let private_key = x25519_random_secret();
    let public_key = x25519_public(&private_key);
    KeyPair { private_key, public_key }
}

/// The text form of a public key: its 32 bytes in base64.
pub fn serialize_public_key(public_key: &[u8; 32]) -> (encoded: String)
    ensures
        deserialized_public_key(encoded@) == Ok::<Seq<u8>, EncError>(public_key@),
{
    crate::enc_utils::serialize_public_key(public_key)
}

/// Reads a public key from its text form.
pub fn deserialize_public_key(encoded: &str) -> (public_key: Result<[u8; 32], EncError>)
    ensures
        key_result_view(public_key) == deserialized_public_key(encoded@),
{
    crate::enc_utils::deserialize_public_key(encoded)
}

/// The symmetric key that the holder of `my_private_key` shares with the holder of the
/// private key behind `peer_public_key`: their X25519 shared secret.
pub fn derive_shared_key(my_private_key: &[u8; 32], peer_public_key: &[u8; 32]) -> (key:
    SymmetricKey)
    ensures
        key@ == x25519_shared(my_private_key@, peer_public_key@),
        key@.len() == KEY_LEN,
        forall|other: Seq<u8>|
            other.len() == KEY_LEN && #[trigger] x25519_public_key(other) == peer_public_key@
                ==> key@ == x25519_shared(other, x25519_public_key(my_private_key@)),
{
    SymmetricKey { key: x25519_agree(my_private_key, peer_public_key) }
}

} // verus!
