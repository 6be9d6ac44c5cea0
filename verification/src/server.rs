//! The key of a listener.
//!
//! A listener has one RSA key pair for as long as it lives and shows its
//! public half to every client. The pair is kept as the DER bytes of the
//! private key, which can be stored and handed back to a later listener, so
//! that clients find the same fingerprint again.

use vstd::prelude::*;
use vstd::slice::slice_to_vec;
use openssl::error::ErrorStack;
use crate::crypto::{
    rsa_generate, rsa_public_key, rsa_public_key_of, sha256, sha256_digest, DIGEST_LEN,
};
use crate::error::Error;

verus! {

/// The size of a new key's modulus, in bits.
pub const RSA_BITS: u32 = 4096;

/// What a listener's key is: the DER bytes of the private key and of its public half.
pub struct ServerKeyView {
    pub private_der: Seq<u8>,
    pub public_der: Seq<u8>,
}

/// The RSA key pair of a listener.
pub struct ServerKey {
    private_der: Vec<u8>,
    public_der: Vec<u8>,
}

impl View for ServerKey {
    type V = ServerKeyView;

    closed spec fn view(&self) -> ServerKeyView {
        ServerKeyView { private_der: self.private_der@, public_der: self.public_der@ }
    }
}

impl ServerKey {
    /// The public bytes are those of the public half of the private key.
    pub open spec fn wf(&self) -> bool {
        self@.public_der == rsa_public_key_of(self@.private_der)
    }

    /// The fingerprint that clients of a listener with this key see.
    pub open spec fn spec_fingerprint(&self) -> Seq<u8> {
        sha256_digest(self@.public_der)
    }

    /// The key pair of the private key `private_der`, given what decoding
    /// that key and encoding its public half came to.
    pub fn from_parts(private_der: Vec<u8>, public_der: Result<Vec<u8>, ErrorStack>) -> (r: Result<
        ServerKey,
        Error,
    >)
        requires
            public_der matches Ok(bytes) ==> bytes@ == rsa_public_key_of(private_der@),
        ensures
            match public_der {
                Ok(bytes) => r is Ok && r->Ok_0.wf() && r->Ok_0@ == (ServerKeyView {
                    private_der: private_der@,
                    public_der: bytes@,
                }),
                Err(e) => r is Err && r->Err_0 == Error::EncryptionError(e),
            },
    {
        match public_der {
            Ok(bytes) => Ok(ServerKey { private_der, public_der: bytes }),
            Err(e) => Err(Error::EncryptionError(e)),
        }
    }

    /// The key pair with the private key `private_der`. Fails with
    /// `EncryptionError` if the bytes are no RSA private key.
    pub fn from_der(private_der: Vec<u8>) -> (r: Result<ServerKey, Error>)
        ensures
            r matches Ok(key) ==> key.wf() && key@.private_der == private_der@,
            r matches Err(e) ==> e is EncryptionError,
    {
        let public_der = rsa_public_key(private_der.as_slice());
        ServerKey::from_parts(private_der, public_der)
    }

    /// A new key pair of `RSA_BITS` bits. Fails with `EncryptionError` if
    /// none can be made.
    pub fn generate() -> (r: Result<ServerKey, Error>)
        ensures
            r matches Ok(key) ==> key.wf(),
            r matches Err(e) ==> e is EncryptionError,
    {
        match rsa_generate(RSA_BITS) {
            Ok(private_der) => ServerKey::from_der(private_der),
            Err(e) => Err(Error::EncryptionError(e)),
        }
    }

    /// The key pair that `key` holds, or a new one where there is none: a
    /// listener that is given the bytes of an earlier one's key has that
    /// listener's key.
    pub fn new_with_key(key: Option<&[u8]>) -> (r: Result<ServerKey, Error>)
        ensures
            r matches Ok(pair) ==> pair.wf() && (key matches Some(bytes) ==> pair@.private_der
                == bytes@),
            r matches Err(e) ==> e is EncryptionError,
    {
        match key {
            Some(bytes) => ServerKey::from_der(slice_to_vec(bytes)),
            None => ServerKey::generate(),
        }
    }

    /// The bytes of the private key, to store them or to compare them.
    pub fn key(&self) -> (bytes: Vec<u8>)
        ensures
            bytes@ == self@.private_der,
    {
        slice_to_vec(self.private_der.as_slice())
    }

    /// The bytes of the public key, as every client receives them.
    pub fn public_key(&self) -> (bytes: &Vec<u8>)
        ensures
            bytes@ == self@.public_der,
    {
        &self.public_der
    }

    /// The digest of the public key.
    pub fn fingerprint(&self) -> (digest: Vec<u8>)
        ensures
            digest@ == self.spec_fingerprint(),
            digest@.len() == DIGEST_LEN,
    {
        sha256(self.public_der.as_slice())
    }
}

/// Identical key bytes make identical listeners: two keys with the same
/// private bytes show the same public key and have the same fingerprint.
pub proof fn lemma_same_bytes_same_fingerprint(a: &ServerKey, b: &ServerKey)
    requires
        a.wf(),
        b.wf(),
        a@.private_der == b@.private_der,
    ensures
        a@.public_der == b@.public_der,
        a.spec_fingerprint() == b.spec_fingerprint(),
{
}

} // verus!
