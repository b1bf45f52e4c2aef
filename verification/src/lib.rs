//! Offline recovery of plaintext from TrueCrypt volumes.
//!
//! The library decrypts and validates the 512-byte volume header with a key
//! derived from the password, and then decrypts the data area sector by sector
//! with AES-256 in XTS mode. Everything here works on bytes in memory; reading
//! the container and writing the plaintext is left to the caller.

pub mod area;
pub mod codec;
pub mod container;
pub mod error;
pub mod header;
pub mod primitives;
pub mod tweak;
pub mod volume;
