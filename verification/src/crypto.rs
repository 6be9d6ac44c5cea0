//! What this crate takes on trust from OpenSSL and from the random generator.
//!
//! Nothing here is proved. Each function makes one kind of call into an
//! outside crate, and its contract says what that crate's source or
//! documentation shows of the call. Where the result is a function of the
//! arguments alone it is given a name, so that the contracts of the verified
//! code can speak of it.

use vstd::prelude::*;
use openssl::error::ErrorStack;
use openssl::rsa::{Padding, Rsa};
use openssl::symm::Cipher;
use rand::rngs::StdRng;
use rand::{RngCore, SeedableRng};

verus! {

/// Declares `rand::rngs::StdRng`, the generator that each stream owns.
#[verifier::external_type_specification]
#[verifier::external_body]
pub struct ExStdRng(rand::rngs::StdRng);

/// The length of an AES-256 key, in bytes.
pub const KEY_LEN: usize = 32;

/// The length of a SHA-256 digest, in bytes.
pub const DIGEST_LEN: usize = 32;

/// The length of an initialization vector, in bytes.
pub const IV_LEN: usize = 16;

/// The length of a cipher block, in bytes.
pub const BLOCK_LEN: usize = 16;

/// The longest input that OpenSSL takes in one call.
pub const MAX_CRYPTO_INPUT: usize = 0x7fff_ffff;

/// The SHA-256 digest of `data`.
pub uninterp spec fn sha256_digest(data: Seq<u8>) -> Seq<u8>;

/// The AES-256-CBC ciphertext, with padding, of `data` under `key` and `iv`.
pub uninterp spec fn aes_256_cbc_encrypted(key: Seq<u8>, iv: Seq<u8>, data: Seq<u8>) -> Seq<u8>;

/// The plaintext of the padded AES-256-CBC ciphertext `data` under `key` and `iv`.
pub uninterp spec fn aes_256_cbc_decrypted(key: Seq<u8>, iv: Seq<u8>, data: Seq<u8>) -> Seq<u8>;

/// The DER encoding of the public half of the RSA key whose DER encoding is `private_der`.
pub uninterp spec fn rsa_public_key_of(private_der: Seq<u8>) -> Seq<u8>;

/// The plaintext of the RSA-OAEP ciphertext `data` under the private key `private_der`.
pub uninterp spec fn rsa_oaep_decrypted(private_der: Seq<u8>, data: Seq<u8>) -> Seq<u8>;

/// Calls `openssl::sha::sha256`. It returns an array of 32 bytes that depends
/// on `data` alone.
#[verifier::external_body]
pub(crate) fn sha256(data: &[u8]) -> (digest: Vec<u8>)
    ensures
        digest@ == sha256_digest(data@),
        digest@.len() == DIGEST_LEN,
{
    openssl::sha::sha256(data).to_vec()
}

/// Calls `openssl::symm::encrypt` with `Cipher::aes_256_cbc()`. On success
/// the result depends on the arguments alone; the source allocates the
/// input's length and one block for it and only ever shortens that. The
/// `requires` keeps to the inputs on which the source does not panic.
#[verifier::external_body]
pub(crate) fn aes_encrypt(key: &[u8], iv: &[u8], data: &[u8]) -> (r: Result<Vec<u8>, ErrorStack>)
    requires
        key@.len() == KEY_LEN,
        iv@.len() == IV_LEN,
        data@.len() <= MAX_CRYPTO_INPUT,
    ensures
        r matches Ok(out) ==> out@ == aes_256_cbc_encrypted(key@, iv@, data@) && out@.len()
            <= data@.len() + BLOCK_LEN,
{
    openssl::symm::encrypt(Cipher::aes_256_cbc(), key, Some(iv), data)
}

/// Calls `openssl::symm::decrypt` with `Cipher::aes_256_cbc()`. On success
/// the result depends on the arguments alone; the source allocates the
/// input's length and one block for it and only ever shortens that. The
/// `requires` keeps to the inputs on which the source does not panic.
#[verifier::external_body]
pub(crate) fn aes_decrypt(key: &[u8], iv: &[u8], data: &[u8]) -> (r: Result<Vec<u8>, ErrorStack>)
    requires
        key@.len() == KEY_LEN,
        iv@.len() == IV_LEN,
        data@.len() <= MAX_CRYPTO_INPUT,
    ensures
        r matches Ok(out) ==> out@ == aes_256_cbc_decrypted(key@, iv@, data@) && out@.len()
            <= data@.len() + BLOCK_LEN,
{
    openssl::symm::decrypt(Cipher::aes_256_cbc(), key, Some(iv), data)
}

/// Calls `Rsa::generate` and encodes the new key with `private_key_to_der`.
/// The key is random: nothing is claimed of it.
#[verifier::external_body]
pub(crate) fn rsa_generate(bits: u32) -> (r: Result<Vec<u8>, ErrorStack>) {
    Rsa::generate(bits)?.private_key_to_der()
}

/// Calls `Rsa::private_key_from_der` and encodes the public half with
/// `public_key_to_der`. On success the result depends on `private_der` alone.
#[verifier::external_body]
pub(crate) fn rsa_public_key(private_der: &[u8]) -> (r: Result<Vec<u8>, ErrorStack>)
    ensures
        r matches Ok(public_der) ==> public_der@ == rsa_public_key_of(private_der@),
{
    Rsa::private_key_from_der(private_der)?.public_key_to_der()
}

/// Calls `Rsa::public_key_from_der` and `public_encrypt` with OAEP padding.
/// The padding is random: nothing is claimed of the ciphertext. The
/// `requires` keeps to the inputs on which the source does not panic.
#[verifier::external_body]
pub(crate) fn rsa_encrypt(public_der: &[u8], data: &[u8]) -> (r: Result<Vec<u8>, ErrorStack>)
    requires
        data@.len() <= MAX_CRYPTO_INPUT,
{
    let rsa = Rsa::public_key_from_der(public_der)?;
    let mut out = vec![0u8; rsa.size() as usize];
    let len = rsa.public_encrypt(data, &mut out, Padding::PKCS1_OAEP)?;
    out.truncate(len);
    Ok(out)
}

/// Calls `Rsa::private_key_from_der` and `private_decrypt` with OAEP padding.
/// On success the result depends on the arguments alone. The `requires`
/// keeps to the inputs on which the source does not panic.
#[verifier::external_body]
pub(crate) fn rsa_decrypt(private_der: &[u8], data: &[u8]) -> (r: Result<Vec<u8>, ErrorStack>)
    requires
        data@.len() <= MAX_CRYPTO_INPUT,
    ensures
        r matches Ok(out) ==> out@ == rsa_oaep_decrypted(private_der@, data@),
{
    let rsa = Rsa::private_key_from_der(private_der)?;
    let mut out = vec![0u8; rsa.size() as usize];
    let len = rsa.private_decrypt(data, &mut out, Padding::PKCS1_OAEP)?;
    out.truncate(len);
    Ok(out)
}

/// Calls `ErrorStack::get`, which takes what OpenSSL's error queue holds.
/// It stands for a failure that this crate found by itself.
#[verifier::external_body]
pub(crate) fn pending_errors() -> ErrorStack {
    ErrorStack::get()
}

/// Calls `StdRng::from_entropy`, which seeds a new generator from the
/// operating system.
#[verifier::external_body]
pub(crate) fn new_rng() -> StdRng {
    StdRng::from_entropy()
}

/// Calls `RngCore::fill_bytes` on a new vector of `len` bytes, which it
/// fills whole. The bytes are random: only their number is claimed. The
/// `requires` keeps to the lengths that a vector can have.
#[verifier::external_body]
pub(crate) fn random_bytes(rng: &mut StdRng, len: usize) -> (bytes: Vec<u8>)
    requires
        len <= MAX_CRYPTO_INPUT,
    ensures
        bytes@.len() == len,
{
    let mut bytes = vec![0u8; len];
    rng.fill_bytes(&mut bytes);
    bytes
}

} // verus!
