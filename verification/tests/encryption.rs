use libws::enc_utils::{
    decrypt, deserialize_p256_public_key, deserialize_public_key, encrypt, encrypt_with_nonce,
    serialize_p256_public_key, serialize_public_key, to_array, EncError, KeyPair, KeyType,
};

const KEY: [u8; 32] = [7u8; 32];

fn hex(text: &str) -> Vec<u8> {
    (0..text.len()).step_by(2).map(|i| u8::from_str_radix(&text[i..i + 2], 16).unwrap()).collect()
}

fn hex32(text: &str) -> [u8; 32] {
    to_array::<32>(&hex(text)).unwrap()
}

fn base64_of(bytes: &[u8]) -> String {
    base64::Engine::encode(&base64::engine::general_purpose::STANDARD, bytes)
}

const ALICE_SECRET: &str = "77076d0a7318a57d3c16c17251b26645df4c2f87ebc0992ab177fba51db92c2a";
const ALICE_PUBLIC: &str = "8520f0098930a754748b7ddcb43ef75a0dbf3a0d26381af4eba4a98eaa9b4e6a";
const BOB_SECRET: &str = "5dab087e624a8a4b79e17f8b83800ee66f3bb1292618b6fd1c2f8b27ff88e0eb";
const BOB_PUBLIC: &str = "de9edb7d7b7dc1b4d35b61c2ece435373f8343c85b78674dadfc7e146f882b4f";
const SHARED: &str = "4a5d9d5ba4ce2de1728e3bf480350f25e07e21c947d19e3376f09b3c1e161742";

#[test]
fn to_array_wants_the_exact_length() {
    assert_eq!(to_array::<3>(&[1, 2, 3]), Some([1, 2, 3]));
    assert_eq!(to_array::<3>(&[1, 2]), None);
    assert_eq!(to_array::<3>(&[1, 2, 3, 4]), None);
    assert_eq!(to_array::<0>(&[]), Some([]));
}

#[test]
fn decrypt_opens_what_encrypt_sealed() {
    let data = b"Hello, secure world!";
    let sealed = encrypt(data, &KEY).unwrap();
    assert_eq!(sealed.len(), 12 + data.len() + 16);
    assert_eq!(decrypt(&sealed, &KEY), Ok(data.to_vec()));
}

#[test]
fn empty_message_can_be_sealed() {
    let sealed = encrypt(b"", &KEY).unwrap();
    assert_eq!(sealed.len(), 28);
    assert_eq!(decrypt(&sealed, &KEY), Ok(Vec::new()));
}

#[test]
fn sealed_message_is_nonce_then_ciphertext() {
    let nonce = [9u8; 12];
    let data = b"payload";
    let sealed = encrypt_with_nonce(data, &KEY, &nonce).unwrap();
    let cipher = <aes_gcm::Aes256Gcm as aes_gcm::KeyInit>::new((&KEY).into());
    let expected = aes_gcm::aead::Aead::encrypt(&cipher, (&nonce).into(), &data[..]).unwrap();
    assert_eq!(&sealed[..12], &nonce);
    assert_eq!(&sealed[12..], &expected[..]);
    assert_ne!(&sealed[12..12 + data.len()], &data[..]);
    assert_eq!(decrypt(&sealed, &KEY), Ok(data.to_vec()));
}

#[test]
fn each_encryption_takes_a_new_nonce() {
    let first = encrypt(b"same", &KEY).unwrap();
    let second = encrypt(b"same", &KEY).unwrap();
    assert_ne!(first[..12], second[..12]);
    assert_ne!(first, second);
}

#[test]
fn key_of_wrong_length_is_refused() {
    assert_eq!(encrypt(b"data", &[1u8; 31]), Err(EncError::InvalidKeyLength));
    assert_eq!(encrypt(b"data", &[1u8; 33]), Err(EncError::InvalidKeyLength));
    assert_eq!(encrypt_with_nonce(b"data", &[], &[0u8; 12]), Err(EncError::InvalidKeyLength));
    let sealed = encrypt(b"data", &KEY).unwrap();
    assert_eq!(decrypt(&sealed, &KEY[..16]), Err(EncError::InvalidKeyLength));
}

#[test]
fn message_not_longer_than_a_nonce_is_too_short() {
    assert_eq!(decrypt(&[], &KEY), Err(EncError::DataTooShort));
    assert_eq!(decrypt(&[0u8; 12], &KEY), Err(EncError::DataTooShort));
    assert_eq!(decrypt(&[0u8; 12], &[0u8; 5]), Err(EncError::DataTooShort));
    assert_eq!(decrypt(&[0u8; 13], &[0u8; 5]), Err(EncError::InvalidKeyLength));
    assert_eq!(decrypt(&[0u8; 13], &KEY), Err(EncError::Decryption));
}

#[test]
fn changed_message_or_other_key_does_not_open() {
    let mut sealed = encrypt(b"data", &KEY).unwrap();
    assert_eq!(decrypt(&sealed, &[8u8; 32]), Err(EncError::Decryption));
    let last = sealed.len() - 1;
    sealed[last] ^= 1;
    assert_eq!(decrypt(&sealed, &KEY), Err(EncError::Decryption));
    sealed[last] ^= 1;
    sealed[0] ^= 1;
    assert_eq!(decrypt(&sealed, &KEY), Err(EncError::Decryption));
}

#[test]
fn public_key_is_written_in_base64() {
    assert_eq!(
        serialize_public_key(&[0u8; 32]),
        "AAAAAAAAAAAAAAAAAAAAAAAAAAAAAAAAAAAAAAAAAAA="
    );
    let key = hex32(ALICE_PUBLIC);
    assert_eq!(serialize_public_key(&key), base64_of(&key));
    assert_eq!(serialize_public_key(&key), "hSDwCYkwp1R0i33ctD73Wg2/Og0mOBr066SpjqqbTmo=");
}

#[test]
fn public_key_is_read_back() {
    let key = hex32(BOB_PUBLIC);
    assert_eq!(deserialize_public_key(&serialize_public_key(&key)), Ok(key));
}

#[test]
fn public_key_text_must_be_base64_of_32_bytes() {
    assert_eq!(deserialize_public_key("not base64!"), Err(EncError::InvalidBase64));
    assert_eq!(deserialize_public_key("AAAA="), Err(EncError::InvalidBase64));
    assert_eq!(
        deserialize_public_key(&base64_of(&[1u8; 31])),
        Err(EncError::InvalidPublicKeyLength)
    );
    assert_eq!(
        deserialize_public_key(&base64_of(&[1u8; 33])),
        Err(EncError::InvalidPublicKeyLength)
    );
    assert_eq!(deserialize_public_key(""), Err(EncError::InvalidPublicKeyLength));
}

#[test]
fn key_pair_of_a_secret_has_its_public_key() {
    let pair = KeyPair::from_x25519_secret(hex32(ALICE_SECRET));
    assert_eq!(pair.key_type, KeyType::X25519);
    assert_eq!(pair.private_key, hex(ALICE_SECRET));
    assert_eq!(pair.public_key, base64_of(&hex(ALICE_PUBLIC)));
    assert_eq!(pair.get_public_key(), Ok(hex32(ALICE_PUBLIC)));
}

#[test]
fn shared_secret_is_that_of_the_exchange() {
    let alice = KeyPair::from_x25519_secret(hex32(ALICE_SECRET));
    let bob = KeyPair::from_x25519_secret(hex32(BOB_SECRET));
    assert_eq!(alice.compute_shared_secret(&bob.public_key), Ok(hex(SHARED)));
    assert_eq!(bob.compute_shared_secret(&alice.public_key), Ok(hex(SHARED)));
}

#[test]
fn generated_pairs_agree_on_a_secret() {
    let one = KeyPair::generate();
    let other = KeyPair::generate();
    assert_eq!(one.key_type, KeyType::X25519);
    assert_eq!(one.private_key.len(), 32);
    assert_ne!(one.private_key, other.private_key);
    let secret = x25519_dalek::StaticSecret::from(to_array::<32>(&one.private_key).unwrap());
    let public = x25519_dalek::PublicKey::from(&secret);
    assert_eq!(one.get_public_key(), Ok(public.to_bytes()));
    let shared = one.compute_shared_secret(&other.public_key).unwrap();
    assert_eq!(other.compute_shared_secret(&one.public_key), Ok(shared.clone()));
    let sealed = encrypt(b"between us", &shared).unwrap();
    assert_eq!(decrypt(&sealed, &shared), Ok(b"between us".to_vec()));
}

#[test]
fn shared_secret_checks_the_public_key_before_the_private() {
    let good = KeyPair::generate();
    let broken = KeyPair {
        private_key: vec![1, 2, 3],
        public_key: good.public_key.clone(),
        key_type: KeyType::X25519,
    };
    assert_eq!(
        broken.compute_shared_secret(&good.public_key),
        Err(EncError::InvalidPrivateKeyLength)
    );
    assert_eq!(broken.compute_shared_secret("???"), Err(EncError::InvalidBase64));
    assert_eq!(
        broken.compute_shared_secret(&base64_of(&[0u8; 8])),
        Err(EncError::InvalidPublicKeyLength)
    );
    assert_eq!(good.compute_shared_secret("???"), Err(EncError::InvalidBase64));
}

#[test]
fn p256_pair_carries_a_compressed_point() {
    let pair = KeyPair::generate_p256();
    assert_eq!(pair.key_type, KeyType::P256);
    assert_eq!(pair.private_key.len(), 32);
    let point =
        base64::Engine::decode(&base64::engine::general_purpose::STANDARD, &pair.public_key)
            .unwrap();
    assert_eq!(point.len(), 33);
    assert!(point[0] == 2 || point[0] == 3);
    let key = deserialize_p256_public_key(&pair.public_key).unwrap();
    assert_eq!(key.as_bytes(), &point[..]);
    assert_eq!(serialize_p256_public_key(&key), pair.public_key);
    assert_ne!(KeyPair::generate_p256().public_key, pair.public_key);
}

#[test]
fn p256_pair_is_made_of_its_parts() {
    let generated = KeyPair::generate_p256();
    let key = deserialize_p256_public_key(&generated.public_key).unwrap();
    let pair = KeyPair::from_p256_parts([5u8; 32], &key);
    assert_eq!(pair.private_key, vec![5u8; 32]);
    assert_eq!(pair.public_key, generated.public_key);
    assert_eq!(pair.key_type, KeyType::P256);
}

#[test]
fn uncompressed_p256_point_is_read_and_compressed() {
    let secret = p256::ecdh::EphemeralSecret::random(&mut rand::rngs::OsRng);
    let public = p256::PublicKey::from(&secret);
    let uncompressed = p256::EncodedPoint::from(public);
    assert_eq!(uncompressed.as_bytes().len(), 65);
    let key = deserialize_p256_public_key(&base64_of(uncompressed.as_bytes())).unwrap();
    assert_eq!(key.as_bytes(), uncompressed.compress().as_bytes());
    assert_eq!(serialize_p256_public_key(&key), base64_of(uncompressed.compress().as_bytes()));
}

#[test]
fn p256_key_text_must_encode_a_point() {
    assert_eq!(deserialize_p256_public_key("???"), Err(EncError::InvalidBase64));
    assert_eq!(deserialize_p256_public_key(""), Err(EncError::InvalidP256PublicKey));
    assert_eq!(
        deserialize_p256_public_key(&base64_of(&[2u8; 5])),
        Err(EncError::InvalidP256PublicKey)
    );
    assert_eq!(
        deserialize_p256_public_key(&base64_of(&[9u8; 33])),
        Err(EncError::InvalidP256PublicKey)
    );
    let mut off_curve = vec![4u8];
    off_curve.extend_from_slice(&[1u8; 64]);
    assert_eq!(
        deserialize_p256_public_key(&base64_of(&off_curve)),
        Err(EncError::InvalidP256PublicKey)
    );
}

#[test]
fn p256_secret_is_shared_with_a_valid_key_only() {
    let pair = KeyPair::generate_p256();
    let peer = KeyPair::generate_p256();
    let shared = pair.compute_shared_secret_p256(&peer.public_key).unwrap();
    assert_eq!(shared.len(), 32);
    assert_ne!(pair.compute_shared_secret_p256(&peer.public_key), Ok(shared));
    assert_eq!(pair.compute_shared_secret_p256("???"), Err(EncError::InvalidBase64));
    assert_eq!(
        pair.compute_shared_secret_p256(&base64_of(&[9u8; 33])),
        Err(EncError::InvalidP256PublicKey)
    );
}

#[test]
fn p256_secret_wants_a_p256_pair() {
    let pair = KeyPair::generate();
    let peer = KeyPair::generate_p256();
    assert_eq!(pair.compute_shared_secret_p256(&peer.public_key), Err(EncError::NotP256));
    assert_eq!(pair.compute_shared_secret_p256("???"), Err(EncError::NotP256));
}

#[test]
fn derived_keys_of_both_sides_open_each_other() {
    let alice = libws::enc_util::generate_keypair();
    let bob = libws::enc_util::generate_keypair();
    let public = x25519_dalek::PublicKey::from(&x25519_dalek::StaticSecret::from(alice.private_key));
    assert_eq!(alice.public_key, public.to_bytes());
    let at_alice = libws::enc_util::derive_shared_key(&alice.private_key, &bob.public_key);
    let at_bob = libws::enc_util::derive_shared_key(&bob.private_key, &alice.public_key);
    assert_eq!(at_alice, at_bob);
    let sealed = at_alice.encrypt(b"hello bob").unwrap();
    assert_eq!(sealed.len(), 12 + 9 + 16);
    assert_eq!(at_bob.decrypt(&sealed), Ok(b"hello bob".to_vec()));
    let stranger = libws::enc_util::generate_keypair();
    let other = libws::enc_util::derive_shared_key(&stranger.private_key, &alice.public_key);
    assert_eq!(other.decrypt(&sealed), Err(EncError::Decryption));
}

#[test]
fn derived_key_is_the_shared_secret() {
    let key = libws::enc_util::derive_shared_key(&hex32(ALICE_SECRET), &hex32(BOB_PUBLIC));
    let sealed = key.encrypt_with_nonce(b"x", &[3u8; 12]).unwrap();
    assert_eq!(sealed, encrypt_with_nonce(b"x", &hex(SHARED), &[3u8; 12]).unwrap());
    assert_eq!(decrypt(&sealed, &hex(SHARED)), Ok(b"x".to_vec()));
}

#[test]
fn symmetric_key_wants_at_least_a_nonce() {
    let key = libws::enc_util::derive_shared_key(&hex32(ALICE_SECRET), &hex32(BOB_PUBLIC));
    assert_eq!(key.decrypt(&[]), Err(EncError::DataTooShort));
    assert_eq!(key.decrypt(&[0u8; 11]), Err(EncError::DataTooShort));
    assert_eq!(key.decrypt(&[0u8; 12]), Err(EncError::Decryption));
    assert_eq!(key.decrypt(&[0u8; 40]), Err(EncError::Decryption));
}

#[test]
fn public_key_text_is_the_same_in_both_modules() {
    let key = hex32(ALICE_PUBLIC);
    let text = libws::enc_util::serialize_public_key(&key);
    assert_eq!(text, serialize_public_key(&key));
    assert_eq!(libws::enc_util::deserialize_public_key(&text), Ok(key));
    assert_eq!(
        libws::enc_util::deserialize_public_key("@@"),
        Err(EncError::InvalidBase64)
    );
    assert_eq!(
        libws::enc_util::deserialize_public_key("AAAA"),
        Err(EncError::InvalidPublicKeyLength)
    );
}
