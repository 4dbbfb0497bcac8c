//! Deriving addresses from public keys: the request the command-line layer
//! serves, with its verified key classification.

use vstd::prelude::*;

use crate::error::Error;
use crate::strings::{hex_bytes_of, is_hex_seq};

verus! {

/// A request to derive the virtual account address of a public key on a
/// network. The key is given as hexadecimal text; the derivation itself
/// (hashing the key) is the external cryptography's work.
#[derive(Debug, PartialEq, Eq)]
pub struct VirtualAccountAddress {
    pub public_key: String,
    pub network_id: u8,
}

/// A public key of one of the two supported curve families, told apart by
/// its length.
#[derive(Debug, PartialEq, Eq)]
pub enum PublicKey {
    EcdsaSecp256k1 { bytes: Vec<u8> },
    EddsaEd25519 { bytes: Vec<u8> },
}

impl VirtualAccountAddress {
    /// Decodes and classifies the request's public key: thirty-three bytes
    /// name the first curve family, thirty-two the second; any other length
    /// or malformed hexadecimal is rejected.
    pub fn parse_public_key(&self) -> (r: Result<PublicKey, Error>)
        ensures
            match r {
                Ok(k) => is_hex_seq(self.public_key@) && match k {
                    PublicKey::EcdsaSecp256k1 { bytes } => bytes@ == hex_bytes_of(
                        self.public_key@,
                    ) && bytes@.len() == 33,
                    PublicKey::EddsaEd25519 { bytes } => bytes@ == hex_bytes_of(self.public_key@)
                        && bytes@.len() == 32,
                },
                Err(e) => (!is_hex_seq(self.public_key@) && e is InvalidHexString) || (is_hex_seq(
                    self.public_key@,
                ) && hex_bytes_of(self.public_key@).len() != 33 && hex_bytes_of(
                    self.public_key@,
                ).len() != 32 && e is InvalidPublicKey),
            },
    {
        match crate::strings::hex_decode(&self.public_key) {
            None => Err(Error::InvalidHexString { value: self.public_key.clone() }),
            Some(bytes) => {
                if bytes.len() == 33 {
                    Ok(PublicKey::EcdsaSecp256k1 { bytes })
                } else if bytes.len() == 32 {
                    Ok(PublicKey::EddsaEd25519 { bytes })
                } else {
                    Err(Error::InvalidPublicKey)
                }
            },
        }
    }
}

} // verus!
