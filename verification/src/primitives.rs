//! The two cryptographic primitives, both provided by OpenSSL.
//!
//! Nothing in this module is proved. Each function states what is assumed of
//! the OpenSSL call it makes; the rest of the library is verified against
//! these statements.

use vstd::prelude::*;

verus! {

/// OpenSSL's error queue, as handed out by a failed call. Opaque here.
#[verifier::external_type_specification]
#[verifier::external_body]
pub struct ExErrorStack(openssl::error::ErrorStack);

/// The `len` bytes that PBKDF2 with HMAC-RIPEMD-160 derives from `password`
/// and `salt` in `iterations` rounds.
pub uninterp spec fn pbkdf2_hmac_ripemd160(
    password: Seq<u8>,
    salt: Seq<u8>,
    iterations: nat,
    len: nat,
) -> Seq<u8>;

/// The plaintext that AES-256 in XTS mode recovers from `data` under the
/// 64-byte `key` and the 16-byte `tweak`.
pub uninterp spec fn aes_256_xts_decrypt(key: Seq<u8>, tweak: Seq<u8>, data: Seq<u8>) -> Seq<u8>;

/// Calls `openssl::pkcs5::pbkdf2_hmac` with the RIPEMD-160 digest.
///
/// Assumed: when the call succeeds, the buffer of `len` bytes that it filled
/// holds the PBKDF2 output for these arguments. The lengths and the round
/// count must fit in a C `int`, since OpenSSL's binding panics otherwise.
/// Nothing is assumed about when the call fails.
#[verifier::external_body]
pub(crate) fn pbkdf2_ripemd160(
    password: &[u8],
    salt: &[u8],
    iterations: usize,
    len: usize,
) -> (r: Result<Vec<u8>, openssl::error::ErrorStack>)
    requires
        password@.len() <= i32::MAX,
        salt@.len() <= i32::MAX,
        1 <= iterations <= i32::MAX,
        len <= i32::MAX,
    ensures
        r matches Ok(key) ==> key@.len() == len && key@ == pbkdf2_hmac_ripemd160(
            password@,
            salt@,
            iterations as nat,
            len as nat,
        ),
{
    let mut key = vec![0u8; len];
    let digest = openssl::hash::MessageDigest::ripemd160();
    openssl::pkcs5::pbkdf2_hmac(password, salt, iterations, digest, &mut key)?;
    Ok(key)
}

/// Calls `openssl::symm::decrypt` with the cipher `Cipher::aes_256_xts()`.
///
/// Assumed: when the call succeeds, the bytes it returns are the XTS
/// plaintext of `data` under `key` and `tweak`. The key must be 64 bytes and
/// the tweak 16, as the cipher expects, and the length of `data` must fit in
/// a C `int`, since OpenSSL's binding panics otherwise. Nothing is assumed
/// about when the call fails, nor about the length of what it returns.
#[verifier::external_body]
pub(crate) fn xts_decrypt(key: &[u8], tweak: &[u8], data: &[u8]) -> (r: Result<
    Vec<u8>,
    openssl::error::ErrorStack,
>)
    requires
        key@.len() == 64,
        tweak@.len() == 16,
        data@.len() <= i32::MAX,
    ensures
        r matches Ok(plain) ==> plain@ == aes_256_xts_decrypt(key@, tweak@, data@),
{
    openssl::symm::decrypt(openssl::symm::Cipher::aes_256_xts(), key, Some(tweak), data)
}

} // verus!
