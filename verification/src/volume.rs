//! Decryption of the data area, one sector at a time.
//!
//! Every sector is decrypted with the volume key and a tweak of its own. The
//! tweak starts at 256 and grows by one with each sector, whatever the sector
//! size. A `VolumeDecryptor` keeps the tweak and the count of bytes written;
//! the caller reads the sectors and writes what comes back.

use crate::error::Error;
use crate::header::valid_sector_size;
use crate::header::TrueCryptHeader;
use crate::header::VOLUME_KEY_SIZE;
use crate::primitives::aes_256_xts_decrypt;
use crate::primitives::xts_decrypt;
use crate::tweak::tweak_bytes;
use crate::tweak::tweak_to_bytes;
use vstd::prelude::*;
use vstd::slice::slice_to_vec;

verus! {

/// The tweak of the first sector of the data area.
pub const INITIAL_TWEAK: u128 = 256;

/// The plaintext of one sector: as many bytes as `chunk` holds, taken from
/// the start of what the cipher recovers from `chunk` under `tweak`.
pub open spec fn sector_plaintext(key: Seq<u8>, tweak: nat, chunk: Seq<u8>) -> Seq<u8> {
    Seq::new(chunk.len(), |i: int| aes_256_xts_decrypt(key, tweak_bytes(tweak), chunk)[i])
}

/// Where a decryption of the data area stands.
pub ghost struct VolumeState {
    /// The volume key.
    pub key: Seq<u8>,
    /// The sector size, in bytes.
    pub sector_size: nat,
    /// The length of the encrypted area, in bytes.
    pub length: nat,
    /// The tweak of the next sector.
    pub tweak: nat,
    /// How many bytes of plaintext have been handed out.
    pub written: nat,
    /// Whether the input has ended: a read came back short or empty.
    pub stopped: bool,
}

impl VolumeState {
    /// The state before the first sector.
    pub open spec fn start(key: Seq<u8>, sector_size: nat, length: nat) -> VolumeState {
        VolumeState {
            key,
            sector_size,
            length,
            tweak: INITIAL_TWEAK as nat,
            written: 0,
            stopped: false,
        }
    }

    /// The invariant of a decryption under way.
    pub open spec fn wf(self) -> bool {
        &&& self.key.len() == VOLUME_KEY_SIZE
        &&& self.sector_size <= u32::MAX
        &&& valid_sector_size(self.sector_size as u32)
        &&& self.length <= u64::MAX
        &&& INITIAL_TWEAK <= self.tweak <= INITIAL_TWEAK + self.written
        &&& self.written < self.length + self.sector_size
    }

    /// Whether nothing is left to do: the input has ended, or as many bytes
    /// have been written as the encrypted area is long.
    pub open spec fn finished(self) -> bool {
        self.stopped || self.written >= self.length
    }

    /// The state after a sector of `n` bytes: the tweak has grown by one, and
    /// a sector that came short was the last.
    pub open spec fn after_sector(self, n: nat) -> VolumeState {
        VolumeState {
            tweak: self.tweak + 1,
            written: self.written + n,
            stopped: n < self.sector_size,
            ..self
        }
    }

    /// The state after a read of `n` bytes. Nothing changes once the
    /// decryption is finished, and an empty read ends it.
    pub open spec fn after_read(self, n: nat) -> VolumeState {
        if self.finished() {
            self
        } else if n == 0 {
            VolumeState { stopped: true, ..self }
        } else {
            self.after_sector(n)
        }
    }

    /// The plaintext that a read of `chunk` in this state gives.
    pub open spec fn plaintext_of(self, chunk: Seq<u8>) -> Seq<u8> {
        if self.finished() || chunk.len() == 0 {
            Seq::empty()
        } else {
            sector_plaintext(self.key, self.tweak, chunk)
        }
    }
}

/// The state of a decryption of the data area.
#[derive(Debug)]
pub struct VolumeDecryptor {
    key: Vec<u8>,
    sector_size: u32,
    length: u64,
    tweak: u128,
    written: u128,
    stopped: bool,
}

impl View for VolumeDecryptor {
    type V = VolumeState;

    closed spec fn view(&self) -> VolumeState {
        VolumeState {
            key: self.key@,
            sector_size: self.sector_size as nat,
            length: self.length as nat,
            tweak: self.tweak as nat,
            written: self.written as nat,
            stopped: self.stopped,
        }
    }
}

impl VolumeDecryptor {
    /// The invariant that every method keeps.
    pub open spec fn wf(&self) -> bool {
        self@.wf()
    }

    /// Starts a decryption of the data area that `header` describes.
    pub fn new(header: &TrueCryptHeader) -> (d: VolumeDecryptor)
        requires
            header.wf(),
        ensures
            d.wf(),
            d@ == VolumeState::start(
                header@.volume_key(),
                header@.sector_size as nat,
                header@.enc_area_length as nat,
            ),
    {
        VolumeDecryptor {
            key: slice_to_vec(header.volume_key()),
            sector_size: header.sector_size(),
            length: header.enc_area_length(),
            tweak: INITIAL_TWEAK,
            written: 0,
            stopped: false,
        }
    }

    /// The sector size: how many bytes to read for the next call of
    /// `decrypt_sector`.
    pub fn sector_size(&self) -> (size: usize)
        ensures
            size == self@.sector_size,
    {
        self.sector_size as usize
    }

    /// The tweak of the next sector.
    pub fn tweak(&self) -> (tweak: u128)
        ensures
            tweak == self@.tweak,
    {
        self.tweak
    }

    /// How many bytes of plaintext have been handed out so far.
    pub fn bytes_written(&self) -> (n: u128)
        ensures
            n == self@.written,
    {
        self.written
    }

    /// Tells whether nothing is left to do.
    pub fn is_finished(&self) -> (done: bool)
        ensures
            done == self@.finished(),
    {
        self.stopped || self.written >= self.length as u128
    }

    /// Takes in the plaintext that the cipher gave for a sector of
    /// `bytes_read` bytes, and hands out what is to be written: `plain` cut
    /// to `bytes_read` bytes.
    ///
    /// Fails with `Crypto`, and changes nothing, where `plain` is shorter
    /// than the sector was.
    pub fn accept_plaintext(&mut self, plain: Vec<u8>, bytes_read: usize) -> (r: Result<
        Vec<u8>,
        Error,
    >)
        requires
            old(self).wf(),
            !old(self)@.finished(),
            0 < bytes_read <= old(self)@.sector_size,
        ensures
            final(self).wf(),
            match r {
                Ok(out) => {
                    &&& plain@.len() >= bytes_read
                    &&& out@ == plain@.subrange(0, bytes_read as int)
                    &&& final(self)@ == old(self)@.after_sector(bytes_read as nat)
                },
                Err(e) => {
                    &&& plain@.len() < bytes_read
                    &&& e == Error::Crypto
                    &&& *final(self) == *old(self)
                },
            },
    {
        if plain.len() < bytes_read {
            return Err(Error::Crypto);
        }
        let mut out: Vec<u8> = plain;
        out.truncate(bytes_read);
        self.written = self.written + bytes_read as u128;
        self.tweak = self.tweak + 1;
        self.stopped = bytes_read < self.sector_size as usize;
        Ok(out)
    }

    /// Decrypts what one read of the data area returned.
    ///
    /// `chunk` holds the bytes read: a whole sector, or fewer where the
    /// input ends. An empty chunk ends the decryption; a short one is
    /// decrypted and is the last. Once the decryption is finished, nothing
    /// is decrypted and nothing changes. On failure nothing changes either.
    pub fn decrypt_sector(&mut self, chunk: &[u8]) -> (r: Result<Vec<u8>, Error>)
        requires
            old(self).wf(),
            chunk@.len() <= old(self)@.sector_size,
        ensures
            final(self).wf(),
            match r {
                Ok(out) => {
                    &&& out@ == old(self)@.plaintext_of(chunk@)
                    &&& out@.len() == (if old(self)@.finished() {
                        0
                    } else {
                        chunk@.len()
                    })
                    &&& final(self)@ == old(self)@.after_read(chunk@.len())
                },
                Err(e) => {
                    &&& e == Error::Crypto
                    &&& !old(self)@.finished()
                    &&& chunk@.len() > 0
                    &&& *final(self) == *old(self)
                },
            },
    {
        if self.is_finished() {
            return Ok(Vec::new());
        }
        if chunk.len() == 0 {
            self.stopped = true;
            return Ok(Vec::new());
        }
        let tweak: Vec<u8> = tweak_to_bytes(self.tweak);
        match xts_decrypt(self.key.as_slice(), tweak.as_slice(), chunk) {
            Ok(plain) => {
                proof {
                    if plain@.len() >= chunk@.len() {
                        assert(plain@.subrange(0, chunk@.len() as int) =~= sector_plaintext(
                            self.key@,
                            self.tweak as nat,
                            chunk@,
                        ));
                    }
                }
                self.accept_plaintext(plain, chunk.len())
            },
            Err(_) => Err(Error::Crypto),
        }
    }
}

/// The tweak counts sectors and nothing else: it starts at 256, every
/// sector read moves it on by exactly one, whatever the sector size and
/// however short the sector, and nothing else moves it.
pub proof fn lemma_tweak_counts_sectors(state: VolumeState, n: nat)
    ensures
        VolumeState::start(state.key, state.sector_size, state.length).tweak == 256,
        !state.finished() && n > 0 ==> state.after_read(n).tweak == state.tweak + 1,
        state.finished() || n == 0 ==> state.after_read(n).tweak == state.tweak,
{
}

} // verus!
