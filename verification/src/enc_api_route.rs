//! The public-key endpoint: the state it serves from and what it answers.

use crate::enc_utils::{
    deserialized_p256_public_key, is_p256_key_text, KeyPair, KeyType, KEY_LEN,
};
use vstd::prelude::*;

verus! {

/// The state of the public-key endpoint.
#[derive(Clone, Debug, PartialEq, Eq)]
pub struct EncApiState {
    /// The key pair whose public key the endpoint serves.
    pub keypair: KeyPair,
}

/// A state with a new P-256 key pair, which browsers can work with.
pub fn create_web_compatible_state() -> (state: EncApiState)
    ensures
        state.keypair.key_type == KeyType::P256,
        state.keypair.private_key@.len() == KEY_LEN,
        is_p256_key_text(state.keypair.public_key@),
        deserialized_p256_public_key(state.keypair.public_key@) is Ok,
{
    EncApiState { keypair: KeyPair::generate_p256() }
}

impl EncApiState {
    /// The body of the answer to a request for the public key: the key in base64, as the
    /// key pair holds it.
    pub fn public_key_body(&self) -> (body: String)
        ensures
            body@ == self.keypair.public_key@,
    {
        self.keypair.public_key.clone()
    }
}

} // verus!
