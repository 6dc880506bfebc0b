//! Key pairs and payload encryption for clients that encrypt end to end.
//!
//! The broker never looks into a payload; these are the tools of its clients. The
//! arithmetic of the curves, the cipher and the base64 alphabet are the work of
//! `x25519-dalek`, `p256`, `aes-gcm` and `base64`; their results are named here, and the
//! rules around them (lengths, the layout of a sealed message, which error comes when) are
//! this module's own.

use vstd::prelude::*;
use vstd::slice::{slice_subrange, slice_to_vec};

verus! {

/// The error of `base64` when text does not decode, carried through as it is.
#[verifier::external_type_specification]
#[verifier::external_body]
pub struct ExBase64DecodeError(base64::DecodeError);

/// The error of `aes-gcm`, carried through as it is.
#[verifier::external_type_specification]
#[verifier::external_body]
pub struct ExCipherError(aes_gcm::Error);

/// The number of bytes of a nonce.
pub const NONCE_LEN: usize = 12;

/// The number of bytes of a symmetric key, of an X25519 key and of a shared secret.
pub const KEY_LEN: usize = 32;

/// The number of bytes of the tag that ends a sealed message.
pub const TAG_LEN: usize = 16;

/// The number of bytes of a P-256 public key in its compressed encoding.
pub const P256_POINT_LEN: usize = 33;

/// The curve that a key pair lives on.
#[derive(Clone, Copy, Debug, PartialEq, Eq, Structural)]
pub enum KeyType {
    X25519,
    P256,
}

/// Why a key or a message was not accepted.
#[derive(Clone, Copy, Debug, PartialEq, Eq, Structural)]
pub enum EncError {
    /// The sealed message is not longer than a nonce.
    DataTooShort,
    /// The symmetric key has not 32 bytes.
    InvalidKeyLength,
    /// The cipher refused to seal the message.
    Encryption,
    /// The message was not sealed under this key, or was changed since.
    Decryption,
    /// The text is not base64.
    InvalidBase64,
    /// The public key has not 32 bytes.
    InvalidPublicKeyLength,
    /// The private key has not 32 bytes.
    InvalidPrivateKeyLength,
    /// The key pair is not on the curve P-256.
    NotP256,
    /// The bytes do not encode a point of the curve P-256.
    InvalidP256PublicKey,
}

/// A public key on Curve25519.
pub type X25519PublicKey = [u8; 32];

/// A public key on the curve P-256, held in its compressed SEC1 encoding.
#[derive(Debug, PartialEq, Eq)]
pub struct P256PublicKey {
    compressed: Vec<u8>,
}

impl View for P256PublicKey {
    type V = Seq<u8>;

    closed spec fn view(&self) -> Seq<u8> {
        self.compressed@
    }
}

/// A private key with the public key that belongs to it.
#[derive(Clone, Debug, PartialEq, Eq)]
pub struct KeyPair {
    pub private_key: Vec<u8>,
    /// The public key in base64.
    pub public_key: String,
    /// The curve of the pair.
    pub key_type: KeyType,
}

/// The text that spells `bytes` in base64, standard alphabet, with padding.
pub uninterp spec fn base64_text(bytes: Seq<u8>) -> Seq<char>;

/// The bytes that `text` spells in base64, standard alphabet, with padding; `None` where
/// it spells none.
pub uninterp spec fn base64_bytes(text: Seq<char>) -> Option<Seq<u8>>;

/// The X25519 public key of a secret key.
pub uninterp spec fn x25519_public_key(secret: Seq<u8>) -> Seq<u8>;

/// The X25519 shared secret of one side's secret key and the other side's public key.
pub uninterp spec fn x25519_shared(secret: Seq<u8>, public: Seq<u8>) -> Seq<u8>;

/// The compressed SEC1 encoding of the point of P-256 that `sec1` encodes, compressed or
/// not; `None` where it encodes no point that can be a public key.
pub uninterp spec fn p256_compressed(sec1: Seq<u8>) -> Option<Seq<u8>>;

/// `data` sealed with AES-256-GCM under `key` and `nonce`, without associated data: the
/// ciphertext followed by its tag; `None` where the cipher refuses.
pub uninterp spec fn aes256_gcm_sealed(key: Seq<u8>, nonce: Seq<u8>, data: Seq<u8>) -> Option<
    Seq<u8>,
>;

/// What `sealed` opens to with AES-256-GCM under `key` and `nonce`, without associated
/// data; `None` where the tag does not fit.
pub uninterp spec fn aes256_gcm_opened(key: Seq<u8>, nonce: Seq<u8>, sealed: Seq<u8>) -> Option<
    Seq<u8>,
>;

/// Whether `len` bytes have a base64 text whose length fits in `usize`.
pub open spec fn base64_fits(len: nat) -> bool {
    len / 3 * 4 + 4 <= usize::MAX
}

/// `Engine::encode` of `base64`, on the engine `STANDARD`: the base64 text of `bytes`,
/// which decodes to `bytes` again.
#[verifier::external_body]
pub(crate) fn base64_encode(bytes: &[u8]) -> (text: String)
    requires
        base64_fits(bytes@.len()),
    ensures
        text@ == base64_text(bytes@),
        base64_bytes(text@) == Some(bytes@),
{
    base64::Engine::encode(&base64::engine::general_purpose::STANDARD, bytes)
}

/// `Engine::decode` of `base64`, on the engine `STANDARD`: the bytes that `text` spells, or
/// the error where it spells none.
#[verifier::external_body]
pub(crate) fn base64_decode(text: &str) -> (bytes: Result<Vec<u8>, base64::DecodeError>)
    ensures
        match bytes {
            Ok(decoded) => base64_bytes(text@) == Some(decoded@),
            Err(_) => base64_bytes(text@) is None,
        },
{
    base64::Engine::decode(&base64::engine::general_purpose::STANDARD, text)
}

/// `StaticSecret::random_from_rng` of `x25519-dalek` with the operating system's
/// generator: the bytes of a new secret key. They are random, so nothing is promised of
/// them. The call does not come back where the operating system has no random bytes to
/// give.
#[verifier::external_body]
pub(crate) fn x25519_random_secret() -> (secret: [u8; 32]) {
    x25519_dalek::StaticSecret::random_from_rng(rand::rngs::OsRng).to_bytes()
}

/// `PublicKey::from(&StaticSecret)` of `x25519-dalek`: the public key of a secret key.
#[verifier::external_body]
pub(crate) fn x25519_public(secret: &[u8; 32]) -> (public: [u8; 32])
    ensures
        public@ == x25519_public_key(secret@),
{
    x25519_dalek::PublicKey::from(&x25519_dalek::StaticSecret::from(*secret)).to_bytes()
}

/// `StaticSecret::diffie_hellman` of `x25519-dalek`: the secret that the holder of `secret`
/// shares with the holder of the secret key behind `public`. Both sides of an exchange
/// reach the same secret: whoever holds a secret key that `public` belongs to gets this
/// result from that key and the public key of `secret`.
#[verifier::external_body]
pub(crate) fn x25519_agree(secret: &[u8; 32], public: &[u8; 32]) -> (shared: [u8; 32])
    ensures
        shared@ == x25519_shared(secret@, public@),
        forall|other: Seq<u8>|
            other.len() == KEY_LEN && #[trigger] x25519_public_key(other) == public@ ==> shared@
                == x25519_shared(other, x25519_public_key(secret@)),
{
    x25519_dalek::StaticSecret::from(*secret).diffie_hellman(
        &x25519_dalek::PublicKey::from(*public),
    ).to_bytes()
}

/// `RngCore::fill_bytes` on `OsRng` of `rand`: `N` bytes from the operating system's
/// generator. They are random, so nothing is promised of them. The call does not come back
/// where the operating system has no random bytes to give.
#[verifier::external_body]
pub(crate) fn random_bytes<const N: usize>() -> (bytes: [u8; N]) {
    let mut bytes = [0u8;N];
    rand::RngCore::fill_bytes(&mut rand::rngs::OsRng, &mut bytes);
    bytes
}

/// `EphemeralSecret::random` of `p256` with the operating system's generator, and the
/// compressed encoding of the public key that belongs to the new secret: a tag and one
/// coordinate, 33 bytes, which encode that key and are their own compressed encoding. The
/// key is random, so no more is promised of it. The call does not come back where the
/// operating system has no random bytes to give.
#[verifier::external_body]
fn p256_random_public() -> (point: Vec<u8>)
    ensures
        point@.len() == P256_POINT_LEN,
        p256_compressed(point@) == Some(point@),
{
    let secret = p256::ecdh::EphemeralSecret::random(&mut rand::rngs::OsRng);
    p256::EncodedPoint::from(p256::PublicKey::from(&secret)).compress().as_bytes().to_vec()
}

/// `PublicKey::from_sec1_bytes` of `p256` and `EncodedPoint::compress`: the compressed
/// encoding, 33 bytes, of the public key that `sec1` encodes, where it encodes one.
#[verifier::external_body]
fn p256_compress(sec1: &[u8]) -> (point: Option<Vec<u8>>)
    ensures
        match point {
            Some(compressed) => p256_compressed(sec1@) == Some(compressed@) && compressed@.len()
                == P256_POINT_LEN,
            None => p256_compressed(sec1@) is None,
        },
{
    p256::PublicKey::from_sec1_bytes(sec1).ok().map(
        |key| p256::EncodedPoint::from(key).compress().as_bytes().to_vec(),
    )
}

/// `EphemeralSecret::diffie_hellman` of `p256`, with a secret made for this one call by
/// `EphemeralSecret::random`: the 32 bytes of the secret shared with the holder of the
/// public key that `sec1` encodes. There is a result exactly where `sec1` encodes a public
/// key; the secret is random, so no more is promised of it. The call does not come back
/// where the operating system has no random bytes to give.
#[verifier::external_body]
fn p256_ephemeral_agree(sec1: &[u8]) -> (shared: Option<Vec<u8>>)
    ensures
        shared is Some <==> p256_compressed(sec1@) is Some,
        shared matches Some(bytes) ==> bytes@.len() == 32,
{
    p256::PublicKey::from_sec1_bytes(sec1).ok().map(
        |key|
            p256::ecdh::EphemeralSecret::random(&mut rand::rngs::OsRng).diffie_hellman(
                &key,
            ).raw_secret_bytes().to_vec(),
    )
}

/// `Aead::encrypt` of `aes-gcm`, on `Aes256Gcm`: `data` sealed under `key` and `nonce`,
/// which is as many bytes as `data` has and a tag of 16 after them. What was sealed opens
/// to `data` again under the same key and nonce.
#[verifier::external_body]
pub(crate) fn aes256_gcm_seal(key: &[u8; 32], nonce: &[u8; 12], data: &[u8]) -> (sealed: Result<
    Vec<u8>,
    aes_gcm::Error,
>)
    ensures
        match sealed {
            Ok(bytes) => {
                &&& aes256_gcm_sealed(key@, nonce@, data@) == Some(bytes@)
                &&& aes256_gcm_opened(key@, nonce@, bytes@) == Some(data@)
                &&& bytes@.len() == data@.len() + TAG_LEN
            },
            Err(_) => aes256_gcm_sealed(key@, nonce@, data@) is None,
        },
{
    let cipher = <aes_gcm::Aes256Gcm as aes_gcm::KeyInit>::new(key.into());
    aes_gcm::aead::Aead::encrypt(&cipher, nonce.into(), data)
}

/// `Aead::decrypt` of `aes-gcm`, on `Aes256Gcm`: what `sealed` opens to under `key` and
/// `nonce`, or the error where its tag does not fit.
#[verifier::external_body]
pub(crate) fn aes256_gcm_open(key: &[u8; 32], nonce: &[u8; 12], sealed: &[u8]) -> (opened: Result<
    Vec<u8>,
    aes_gcm::Error,
>)
    ensures
        match opened {
            Ok(bytes) => aes256_gcm_opened(key@, nonce@, sealed@) == Some(bytes@),
            Err(_) => aes256_gcm_opened(key@, nonce@, sealed@) is None,
        },
{
    let cipher = <aes_gcm::Aes256Gcm as aes_gcm::KeyInit>::new(key.into());
    aes_gcm::aead::Aead::decrypt(&cipher, nonce.into(), sealed)
}

/// The bytes as an array of `N`, where there are exactly `N` of them.
pub fn to_array<const N: usize>(bytes: &[u8]) -> (array: Option<[u8; N]>)
    ensures
        match array {
            Some(filled) => bytes@.len() == N && filled@ == bytes@,
            None => bytes@.len() != N,
        },
{
    if bytes.len() != N {
        return None;
    }
    let mut array = [0u8;N];
    let mut i: usize = 0;
    while i < N
        invariant
            i <= N,
            bytes@.len() == N,
            array@.len() == N,
            forall|j: int| 0 <= j < i ==> array@[j] == bytes@[j],
        decreases N - i,
    {
        array[i] = bytes[i];
        i += 1;
    }
    Some(array)
}

/// The layout of a sealed message: the nonce, then what the cipher made of the data.
pub open spec fn sealed_message(key: Seq<u8>, nonce: Seq<u8>, data: Seq<u8>) -> Option<Seq<u8>> {
    match aes256_gcm_sealed(key, nonce, data) {
        Some(sealed) => Some(nonce + sealed),
        None => None,
    }
}

/// What `encrypt_with_nonce` returns.
pub open spec fn encrypted(data: Seq<u8>, shared_secret: Seq<u8>, nonce: Seq<u8>) -> Result<
    Seq<u8>,
    EncError,
> {
    if shared_secret.len() != KEY_LEN {
        Err(EncError::InvalidKeyLength)
    } else {
        match sealed_message(shared_secret, nonce, data) {
            Some(message) => Ok(message),
            None => Err(EncError::Encryption),
        }
    }
}

/// What `decrypt` returns.
pub open spec fn decrypted(encrypted_data: Seq<u8>, shared_secret: Seq<u8>) -> Result<
    Seq<u8>,
    EncError,
> {
    if encrypted_data.len() <= NONCE_LEN {
        Err(EncError::DataTooShort)
    } else if shared_secret.len() != KEY_LEN {
        Err(EncError::InvalidKeyLength)
    } else {
        match aes256_gcm_opened(
            shared_secret,
            encrypted_data.take(NONCE_LEN as int),
            encrypted_data.skip(NONCE_LEN as int),
        ) {
            Some(data) => Ok(data),
            None => Err(EncError::Decryption),
        }
    }
}

/// The mathematical form of a result that holds bytes.
pub open spec fn bytes_result_view(result: Result<Vec<u8>, EncError>) -> Result<Seq<u8>, EncError> {
    match result {
        Ok(bytes) => Ok(bytes@),
        Err(error) => Err(error),
    }
}

/// Seals `data` under `shared_secret` with the given nonce. The result is the nonce
/// followed by the ciphertext and its tag.
pub fn encrypt_with_nonce(data: &[u8], shared_secret: &[u8], nonce: &[u8; 12]) -> (sealed: Result<
    Vec<u8>,
    EncError,
>)
    ensures
        bytes_result_view(sealed) == encrypted(data@, shared_secret@, nonce@),
        sealed matches Ok(message) ==> {
            &&& message@.len() == NONCE_LEN + data@.len() + TAG_LEN
            &&& decrypted(message@, shared_secret@) == Ok::<Seq<u8>, EncError>(data@)
        },
{
    let key: [u8; 32] = match to_array::<32>(shared_secret) {
        Some(key) => key,
        None => {
            return Err(EncError::InvalidKeyLength);
        },
    };
    match aes256_gcm_seal(&key, nonce, data) {
        Ok(ciphertext) => {
            let mut message = slice_to_vec(nonce.as_slice());
            message.extend_from_slice(ciphertext.as_slice());
            assert(message@ =~= nonce@ + ciphertext@);
            assert(message@.take(NONCE_LEN as int) =~= nonce@);
            assert(message@.skip(NONCE_LEN as int) =~= ciphertext@);
            Ok(message)
        },
        Err(_) => Err(EncError::Encryption),
    }
}

/// Seals `data` under `shared_secret` with a fresh random nonce.
pub fn encrypt(data: &[u8], shared_secret: &[u8]) -> (sealed: Result<Vec<u8>, EncError>)
    ensures
        exists|nonce: Seq<u8>|
            nonce.len() == NONCE_LEN && bytes_result_view(sealed) == #[trigger] encrypted(
                data@,
                shared_secret@,
                nonce,
            ),
        shared_secret@.len() != KEY_LEN ==> sealed == Err::<Vec<u8>, EncError>(
            EncError::InvalidKeyLength,
        ),
        sealed matches Ok(message) ==> {
            &&& message@.len() == NONCE_LEN + data@.len() + TAG_LEN
            &&& decrypted(message@, shared_secret@) == Ok::<Seq<u8>, EncError>(data@)
        },
{
    let nonce: [u8; 12] = random_bytes::<12>();
    encrypt_with_nonce(data, shared_secret, &nonce)
}

/// Opens a message that [`encrypt`] sealed under the same `shared_secret`.
pub fn decrypt(encrypted_data: &[u8], shared_secret: &[u8]) -> (opened: Result<Vec<u8>, EncError>)
    ensures
        bytes_result_view(opened) == decrypted(encrypted_data@, shared_secret@),
{
    if encrypted_data.len() <= 12 {
        return Err(EncError::DataTooShort);
    }
    let nonce: [u8; 12] = match to_array::<12>(slice_subrange(encrypted_data, 0, 12)) {
        Some(nonce) => nonce,
        None => {
            return Err(EncError::DataTooShort);
        },
    };
    let key: [u8; 32] = match to_array::<32>(shared_secret) {
        Some(key) => key,
        None => {
            return Err(EncError::InvalidKeyLength);
        },
    };
    let ciphertext = slice_subrange(encrypted_data, 12, encrypted_data.len());
    match aes256_gcm_open(&key, &nonce, ciphertext) {
        Ok(data) => Ok(data),
        Err(_) => Err(EncError::Decryption),
    }
}

/// The text form of an X25519 public key: its 32 bytes in base64.
pub fn serialize_public_key(public_key: &X25519PublicKey) -> (encoded: String)
    ensures
        encoded@ == base64_text(public_key@),
        deserialized_public_key(encoded@) == Ok::<Seq<u8>, EncError>(public_key@),
{
    base64_encode(public_key.as_slice())
}

/// What `deserialize_public_key` returns.
pub open spec fn deserialized_public_key(encoded: Seq<char>) -> Result<Seq<u8>, EncError> {
    match base64_bytes(encoded) {
        None => Err(EncError::InvalidBase64),
        Some(bytes) => if bytes.len() == KEY_LEN {
            Ok(bytes)
        } else {
            Err(EncError::InvalidPublicKeyLength)
        },
    }
}

/// The mathematical form of a result that holds a key of 32 bytes.
pub open spec fn key_result_view(result: Result<[u8; 32], EncError>) -> Result<Seq<u8>, EncError> {
    match result {
        Ok(key) => Ok(key@),
        Err(error) => Err(error),
    }
}

/// Reads an X25519 public key from its text form.
pub fn deserialize_public_key(encoded: &str) -> (public_key: Result<X25519PublicKey, EncError>)
    ensures
        key_result_view(public_key) == deserialized_public_key(encoded@),
{
    match base64_decode(encoded) {
        Ok(bytes) => match to_array::<32>(bytes.as_slice()) {
            Some(key) => Ok(key),
            None => Err(EncError::InvalidPublicKeyLength),
        },
        Err(_) => Err(EncError::InvalidBase64),
    }
}

/// The text form of a P-256 public key: its compressed encoding in base64.
pub fn serialize_p256_public_key(public_key: &P256PublicKey) -> (encoded: String)
    ensures
        encoded@ == base64_text(public_key@),
        base64_bytes(encoded@) == Some(public_key@),
{
    proof {
        use_type_invariant(public_key);
    }
    base64_encode(public_key.compressed.as_slice())
}

/// What `deserialize_p256_public_key` returns, as the compressed encoding of the key.
pub open spec fn deserialized_p256_public_key(encoded: Seq<char>) -> Result<Seq<u8>, EncError> {
    match base64_bytes(encoded) {
        None => Err(EncError::InvalidBase64),
        Some(bytes) => match p256_compressed(bytes) {
            Some(compressed) => Ok(compressed),
            None => Err(EncError::InvalidP256PublicKey),
        },
    }
}

/// The mathematical form of a result that holds a P-256 public key.
pub open spec fn p256_result_view(result: Result<P256PublicKey, EncError>) -> Result<
    Seq<u8>,
    EncError,
> {
    match result {
        Ok(key) => Ok(key@),
        Err(error) => Err(error),
    }
}

/// Reads a P-256 public key from its text form: base64 of a SEC1 encoding, compressed or
/// not.
pub fn deserialize_p256_public_key(encoded: &str) -> (public_key: Result<P256PublicKey, EncError>)
    ensures
        p256_result_view(public_key) == deserialized_p256_public_key(encoded@),
{
    match base64_decode(encoded) {
        Ok(bytes) => match p256_compress(bytes.as_slice()) {
            Some(compressed) => Ok(P256PublicKey { compressed }),
            None => Err(EncError::InvalidP256PublicKey),
        },
        Err(_) => Err(EncError::InvalidBase64),
    }
}

impl P256PublicKey {
    #[verifier::type_invariant]
    spec fn inv(self) -> bool {
        self.compressed@.len() == P256_POINT_LEN
    }

    /// The compressed SEC1 encoding of the key: a tag and one coordinate.
    pub fn as_bytes(&self) -> (bytes: &[u8])
        ensures
            bytes@ == self@,
            bytes@.len() == P256_POINT_LEN,
    {
        proof {
            use_type_invariant(self);
        }
        self.compressed.as_slice()
    }
}

/// Whether `text` is the text form of a P-256 public key in its compressed encoding: the
/// base64 of 33 bytes that encode a point of the curve, and decodes to them again.
pub open spec fn is_p256_key_text(text: Seq<char>) -> bool {
    exists|point: Seq<u8>|
        point.len() == P256_POINT_LEN && p256_compressed(point) == Some(point) && text
            == #[trigger] base64_text(point) && base64_bytes(text) == Some(point)
}

/// What `compute_shared_secret` returns for a pair with the private key `private_key`.
pub open spec fn shared_secret(private_key: Seq<u8>, other_public_key: Seq<char>) -> Result<
    Seq<u8>,
    EncError,
> {
    match deserialized_public_key(other_public_key) {
        Err(error) => Err(error),
        Ok(public) => if private_key.len() == KEY_LEN {
            Ok(x25519_shared(private_key, public))
        } else {
            Err(EncError::InvalidPrivateKeyLength)
        },
    }
}

/// Whether `compute_shared_secret_p256` succeeds, and the error where it does not.
pub open spec fn p256_agreement(key_type: KeyType, other_public_key: Seq<char>) -> Result<
    (),
    EncError,
> {
    if key_type != KeyType::P256 {
        Err(EncError::NotP256)
    } else {
        match deserialized_p256_public_key(other_public_key) {
            Ok(_) => Ok(()),
            Err(error) => Err(error),
        }
    }
}

impl KeyPair {
    /// The X25519 key pair of the secret key `secret`.
    pub fn from_x25519_secret(secret: [u8; 32]) -> (pair: KeyPair)
        ensures
            pair.private_key@ == secret@,
            pair.public_key@ == base64_text(x25519_public_key(secret@)),
            deserialized_public_key(pair.public_key@) == Ok::<Seq<u8>, EncError>(
                x25519_public_key(secret@),
            ),
            pair.key_type == KeyType::X25519,
    {
        let public = x25519_public(&secret);
        KeyPair {
            private_key: slice_to_vec(secret.as_slice()),
            public_key: serialize_public_key(&public),
            key_type: KeyType::X25519,
        }
    }

    /// A new X25519 key pair with a random secret key.
    pub fn generate() -> (pair: KeyPair)
        ensures
            pair.private_key@.len() == KEY_LEN,
            pair.public_key@ == base64_text(x25519_public_key(pair.private_key@)),
            deserialized_public_key(pair.public_key@) == Ok::<Seq<u8>, EncError>(
                x25519_public_key(pair.private_key@),
            ),
            pair.key_type == KeyType::X25519,
    {
        KeyPair::from_x25519_secret(x25519_random_secret())
    }

    /// The P-256 pair made of a public key and of bytes to keep as the private key.
    pub fn from_p256_parts(private_key: [u8; 32], public_key: &P256PublicKey) -> (pair: KeyPair)
        ensures
            pair.private_key@ == private_key@,
            pair.public_key@ == base64_text(public_key@),
            base64_bytes(pair.public_key@) == Some(public_key@),
            pair.key_type == KeyType::P256,
    {
        KeyPair {
            private_key: slice_to_vec(private_key.as_slice()),
            public_key: serialize_p256_public_key(public_key),
            key_type: KeyType::P256,
        }
    }

    /// A new P-256 key pair for browsers. Its public key is that of a fresh random secret
    /// that is not kept; the private key it holds is 32 random bytes of their own.
    pub fn generate_p256() -> (pair: KeyPair)
        ensures
            pair.private_key@.len() == KEY_LEN,
            pair.key_type == KeyType::P256,
            is_p256_key_text(pair.public_key@),
            deserialized_p256_public_key(pair.public_key@) is Ok,
    {
        let public_key = P256PublicKey { compressed: p256_random_public() };
        let private_key: [u8; 32] = random_bytes::<32>();
        let pair = KeyPair::from_p256_parts(private_key, &public_key);
        assert(pair.public_key@ == base64_text(public_key@));
        pair
    }

    /// The public key of the pair, read as an X25519 key.
    pub fn get_public_key(&self) -> (public_key: Result<X25519PublicKey, EncError>)
        ensures
            key_result_view(public_key) == deserialized_public_key(self.public_key@),
    {
        deserialize_public_key(self.public_key.as_str())
    }

    /// The X25519 secret that this pair shares with the holder of `other_public_key`.
    pub fn compute_shared_secret(&self, other_public_key: &str) -> (shared: Result<
        Vec<u8>,
        EncError,
    >)
        ensures
            bytes_result_view(shared) == shared_secret(self.private_key@, other_public_key@),
            shared matches Ok(bytes) ==> bytes@.len() == KEY_LEN,
            shared matches Ok(bytes) ==> forall|other: Seq<u8>|
                other.len() == KEY_LEN && deserialized_public_key(other_public_key@) == Ok::<
                    Seq<u8>,
                    EncError,
                >(#[trigger] x25519_public_key(other)) ==> bytes@ == x25519_shared(
                    other,
                    x25519_public_key(self.private_key@),
                ),
    {
        let public = match deserialize_public_key(other_public_key) {
            Ok(public) => public,
            Err(error) => {
                return Err(error);
            },
        };
        match to_array::<32>(self.private_key.as_slice()) {
            Some(secret) => {
                let shared = x25519_agree(&secret, &public);
                Ok(slice_to_vec(shared.as_slice()))
            },
            None => Err(EncError::InvalidPrivateKeyLength),
        }
    }

    /// A P-256 secret shared with the holder of `other_public_key`. It is made with a
    /// fresh random secret at every call, not with the private key of the pair.
    pub fn compute_shared_secret_p256(&self, other_public_key: &str) -> (shared: Result<
        Vec<u8>,
        EncError,
    >)
        ensures
            match shared {
                Ok(bytes) => p256_agreement(self.key_type, other_public_key@) is Ok && bytes@.len()
                    == KEY_LEN,
                Err(error) => p256_agreement(self.key_type, other_public_key@) == Err::<
                    (),
                    EncError,
                >(error),
            },
    {
        match self.key_type {
            KeyType::P256 => {},
            _ => {
                return Err(EncError::NotP256);
            },
        }
        let bytes = match base64_decode(other_public_key) {
            Ok(bytes) => bytes,
            Err(_) => {
                return Err(EncError::InvalidBase64);
            },
        };
        match p256_ephemeral_agree(bytes.as_slice()) {
            Some(shared) => Ok(shared),
            None => Err(EncError::InvalidP256PublicKey),
        }
    }
}

} // verus!
