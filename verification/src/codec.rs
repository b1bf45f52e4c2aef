//! From password and header block to a parsed header.
//!
//! A container opens with a block of 512 bytes: a salt of 64 bytes in the
//! clear, then the header, encrypted. The header key is derived from the
//! password and the salt, and the header is decrypted under the tweak zero,
//! wherever the container lies on disk.

use crate::error::Error;
use crate::header::parse_header;
use crate::header::HeaderView;
use crate::header::TrueCryptHeader;
use crate::header::HEADER_SIZE;
use crate::primitives::aes_256_xts_decrypt;
use crate::primitives::pbkdf2_hmac_ripemd160;
use crate::primitives::pbkdf2_ripemd160;
use crate::primitives::xts_decrypt;
use crate::tweak::tweak_bytes;
use crate::tweak::tweak_to_bytes;
use vstd::prelude::*;
use vstd::slice::slice_subrange;
use vstd::string::StringSliceAdditionalSpecFns;

verus! {

/// Length of the block that opens a container: salt and encrypted header.
pub const HEADER_BLOCK_SIZE: usize = 512;

/// Length of the salt.
pub const SALT_SIZE: usize = 64;

/// Length of the header key.
pub const HEADER_KEY_SIZE: usize = 64;

/// Rounds of the key derivation.
pub const KEY_DERIVATION_ROUNDS: usize = 2000;

/// The tweak under which every header is encrypted.
pub const HEADER_TWEAK: u128 = 0;

/// Longest password the key derivation takes.
pub const MAX_PASSWORD_SIZE: usize = 0x7fff_ffff;

/// The header key for `password` and `salt`.
pub open spec fn header_key(password: Seq<u8>, salt: Seq<u8>) -> Seq<u8> {
    pbkdf2_hmac_ripemd160(password, salt, KEY_DERIVATION_ROUNDS as nat, HEADER_KEY_SIZE as nat)
}

/// The plaintext of the encrypted header `encrypted` under `key`.
pub open spec fn header_plaintext(key: Seq<u8>, encrypted: Seq<u8>) -> Seq<u8> {
    aes_256_xts_decrypt(key, tweak_bytes(HEADER_TWEAK as nat), encrypted)
}

/// The salt in a header block.
pub open spec fn salt_of(block: Seq<u8>) -> Seq<u8> {
    block.subrange(0, SALT_SIZE as int)
}

/// The encrypted header in a header block.
pub open spec fn encrypted_header_of(block: Seq<u8>) -> Seq<u8> {
    block.subrange(SALT_SIZE as int, HEADER_BLOCK_SIZE as int)
}

/// The plaintext of the header in `block` under the key that `password`
/// gives.
pub open spec fn unlocked_header(block: Seq<u8>, password: Seq<u8>) -> Seq<u8> {
    header_plaintext(header_key(password, salt_of(block)), encrypted_header_of(block))
}

/// What opening the header in `block` with `password` gives, as long as
/// both primitives do their work.
pub open spec fn opened_header(block: Seq<u8>, password: Seq<u8>) -> Result<HeaderView, Error> {
    parse_header(unlocked_header(block, password))
}

/// Derives the header key from the password and the salt.
///
/// Fails with `Crypto` where the key derivation fails, as it does for a
/// password longer than `MAX_PASSWORD_SIZE`.
pub fn derive_header_key(password: &[u8], salt: &[u8]) -> (r: Result<Vec<u8>, Error>)
    requires
        salt@.len() == SALT_SIZE,
    ensures
        match r {
            Ok(key) => {
                &&& key@ == header_key(password@, salt@)
                &&& key@.len() == HEADER_KEY_SIZE
                &&& password@.len() <= MAX_PASSWORD_SIZE
            },
            Err(e) => e == Error::Crypto,
        },
        password@.len() > MAX_PASSWORD_SIZE ==> r is Err,
{
    if password.len() > MAX_PASSWORD_SIZE {
        return Err(Error::Crypto);
    }
    match pbkdf2_ripemd160(password, salt, KEY_DERIVATION_ROUNDS, HEADER_KEY_SIZE) {
        Ok(key) => Ok(key),
        Err(_) => Err(Error::Crypto),
    }
}

/// Decrypts the encrypted header with the header key, under the tweak zero.
///
/// Fails with `Crypto` where the cipher fails.
pub fn decrypt_header(encrypted: &[u8], key: &[u8]) -> (r: Result<Vec<u8>, Error>)
    requires
        encrypted@.len() == HEADER_SIZE,
        key@.len() == HEADER_KEY_SIZE,
    ensures
        match r {
            Ok(raw) => raw@ == header_plaintext(key@, encrypted@),
            Err(e) => e == Error::Crypto,
        },
{
    let tweak: Vec<u8> = tweak_to_bytes(HEADER_TWEAK);
    match xts_decrypt(key, tweak.as_slice(), encrypted) {
        Ok(raw) => Ok(raw),
        Err(_) => Err(Error::Crypto),
    }
}

/// Opens the header in the first block of a container: derives the key,
/// decrypts the header, and validates and parses what comes out.
///
/// Fails with `Crypto` where a primitive fails. Otherwise it returns what
/// parsing the decrypted bytes gives: `WrongPassword` where they lack the
/// magic marker, `ParseFailure` where they are too few, `InvalidHeader` where
/// the sector size is not acceptable, else the header.
pub fn open_header(block: &[u8], password: &str) -> (r: Result<TrueCryptHeader, Error>)
    requires
        block@.len() == HEADER_BLOCK_SIZE,
    ensures
        match r {
            Ok(header) => header.wf() && opened_header(block@, password.spec_bytes()) == Ok::<
                HeaderView,
                Error,
            >(header@),
            Err(e) => e == Error::Crypto || opened_header(block@, password.spec_bytes()) == Err::<
                HeaderView,
                Error,
            >(e),
        },
        password.spec_bytes().len() > MAX_PASSWORD_SIZE ==> r matches Err(Error::Crypto),
{
    let salt: &[u8] = slice_subrange(block, 0, SALT_SIZE);
    let encrypted: &[u8] = slice_subrange(block, SALT_SIZE, HEADER_BLOCK_SIZE);
    let key: Vec<u8> = match derive_header_key(password.as_bytes(), salt) {
        Ok(key) => key,
        Err(e) => {
            return Err(e);
        },
    };
    let raw: Vec<u8> = match decrypt_header(encrypted, key.as_slice()) {
        Ok(raw) => raw,
        Err(e) => {
            return Err(e);
        },
    };
    TrueCryptHeader::parse(raw.as_slice())
}

} // verus!
