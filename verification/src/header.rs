//! The volume header: its byte layout, and the rules a decrypted header must
//! meet before it is accepted.
//!
//! A decrypted header is 448 bytes long. It opens with a four-byte magic
//! marker; every integer that follows is stored big-endian.

use crate::error::Error;
use vstd::prelude::*;
use vstd::slice::slice_subrange;
use vstd::slice::slice_to_vec;

verus! {

/// Length of a decrypted header, magic marker included.
pub const HEADER_SIZE: usize = 448;

/// Length of the reserved field.
pub const RESERVED_SIZE: usize = 120;

/// Length of the key area.
pub const KEY_AREA_SIZE: usize = 256;

/// Length of the volume key, which opens the key area.
pub const VOLUME_KEY_SIZE: usize = 64;

/// Sector size of every volume older than format version 5.
pub const DEFAULT_SECTOR_SIZE: u32 = 512;

/// Smallest sector size a header may state.
pub const MIN_SECTOR_SIZE: u32 = 512;

/// Largest sector size a header may state.
pub const MAX_SECTOR_SIZE: u32 = 4096;

/// Every sector size is a multiple of this unit.
pub const ENCRYPTION_DATA_UNIT_SIZE: u32 = 512;

/// First format version whose header stores the sector size.
pub const FIRST_VERSION_WITH_SECTOR_SIZE: u16 = 5;

/// The marker that opens a correctly decrypted header: the ASCII letters `TRUE`.
pub open spec fn magic() -> Seq<u8> {
    seq![0x54u8, 0x52u8, 0x55u8, 0x45u8]
}

/// Whether `raw` opens with the magic marker.
pub open spec fn has_magic(raw: Seq<u8>) -> bool {
    raw.len() >= 4 && raw.subrange(0, 4) == magic()
}

/// The big-endian 16-bit integer stored in `s` at offset `at`.
pub open spec fn be_u16(s: Seq<u8>, at: int) -> u16 {
    (s[at] as int * 0x100 + s[at + 1] as int) as u16
}

/// The big-endian 32-bit integer stored in `s` at offset `at`.
pub open spec fn be_u32(s: Seq<u8>, at: int) -> u32 {
    (be_u16(s, at) as int * 0x1_0000 + be_u16(s, at + 2) as int) as u32
}

/// The big-endian 64-bit integer stored in `s` at offset `at`.
pub open spec fn be_u64(s: Seq<u8>, at: int) -> u64 {
    (be_u32(s, at) as int * 0x1_0000_0000 + be_u32(s, at + 4) as int) as u64
}

/// The sector size that holds for a volume of format `version` whose header
/// stores `stored`: older formats did not store one and always use 512.
pub open spec fn sector_size_in_effect(version: u16, stored: u32) -> u32 {
    if version < FIRST_VERSION_WITH_SECTOR_SIZE {
        DEFAULT_SECTOR_SIZE
    } else {
        stored
    }
}

/// Whether `size` is an acceptable sector size: within 512..=4096 and a
/// multiple of 512.
pub open spec fn valid_sector_size(size: u32) -> bool {
    MIN_SECTOR_SIZE <= size <= MAX_SECTOR_SIZE && size % ENCRYPTION_DATA_UNIT_SIZE == 0
}

/// What a header holds, as mathematical values.
pub ghost struct HeaderView {
    pub version: u16,
    pub required_program_version: u16,
    pub key_area_crc: u32,
    pub creation_time: u64,
    pub modification_time: u64,
    pub hidden_volume_size: u64,
    pub volume_size: u64,
    pub enc_area_start: u64,
    pub enc_area_length: u64,
    pub flags: u32,
    pub sector_size: u32,
    pub reserved: Seq<u8>,
    pub header_crc: u32,
    pub key_area: Seq<u8>,
}

impl HeaderView {
    /// The invariant of an accepted header: both byte fields have their fixed
    /// lengths, and the sector size is valid and is 512 for an old format.
    pub open spec fn wf(self) -> bool {
        &&& self.reserved.len() == RESERVED_SIZE
        &&& self.key_area.len() == KEY_AREA_SIZE
        &&& valid_sector_size(self.sector_size)
        &&& self.version < FIRST_VERSION_WITH_SECTOR_SIZE ==> self.sector_size
            == DEFAULT_SECTOR_SIZE
    }

    /// The volume key: the first 64 bytes of the key area.
    pub open spec fn volume_key(self) -> Seq<u8> {
        self.key_area.subrange(0, VOLUME_KEY_SIZE as int)
    }
}

/// The fields as they are laid out in the 448 bytes of `raw`, the sector size
/// still as stored.
pub open spec fn stored_fields(raw: Seq<u8>) -> HeaderView {
    HeaderView {
        version: be_u16(raw, 4),
        required_program_version: be_u16(raw, 6),
        key_area_crc: be_u32(raw, 8),
        creation_time: be_u64(raw, 12),
        modification_time: be_u64(raw, 20),
        hidden_volume_size: be_u64(raw, 28),
        volume_size: be_u64(raw, 36),
        enc_area_start: be_u64(raw, 44),
        enc_area_length: be_u64(raw, 52),
        flags: be_u32(raw, 60),
        sector_size: be_u32(raw, 64),
        reserved: raw.subrange(68, 188),
        header_crc: be_u32(raw, 188),
        key_area: raw.subrange(192, 448),
    }
}

/// What parsing the decrypted header `raw` gives.
///
/// The magic marker is tested first, since it alone tells whether the
/// password was right. Then the fields are read, the sector size of an old
/// format is replaced by 512, and the sector size is validated.
pub open spec fn parse_header(raw: Seq<u8>) -> Result<HeaderView, Error> {
    if raw.len() < 4 {
        Err(Error::ParseFailure)
    } else if !has_magic(raw) {
        Err(Error::WrongPassword)
    } else if raw.len() < HEADER_SIZE {
        Err(Error::ParseFailure)
    } else {
        let stored = stored_fields(raw);
        let size = sector_size_in_effect(stored.version, stored.sector_size);
        if valid_sector_size(size) {
            Ok(HeaderView { sector_size: size, ..stored })
        } else {
            Err(Error::InvalidHeader)
        }
    }
}

/// The acceptable sector sizes are the eight multiples of 512 up to 4096.
pub proof fn lemma_valid_sector_sizes(size: u32)
    ensures
        valid_sector_size(size) <==> (size == 512 || size == 1024 || size == 1536 || size == 2048
            || size == 2560 || size == 3072 || size == 3584 || size == 4096),
{
}

/// A header is accepted exactly where it opens with the magic marker, holds
/// all 448 bytes and has an acceptable sector size in effect; each failure
/// has its own error, and a missing marker is found before anything else
/// is looked at.
pub proof fn lemma_parse_header_outcomes(raw: Seq<u8>)
    ensures
        parse_header(raw) is Ok <==> has_magic(raw) && raw.len() >= HEADER_SIZE
            && valid_sector_size(
            sector_size_in_effect(stored_fields(raw).version, stored_fields(raw).sector_size),
        ),
        parse_header(raw) == Err::<HeaderView, Error>(Error::WrongPassword) <==> raw.len() >= 4
            && !has_magic(raw),
        parse_header(raw) == Err::<HeaderView, Error>(Error::ParseFailure) <==> raw.len() < 4 || (
        has_magic(raw) && raw.len() < HEADER_SIZE),
        parse_header(raw) == Err::<HeaderView, Error>(Error::InvalidHeader) <==> has_magic(raw)
            && raw.len() >= HEADER_SIZE && !valid_sector_size(
            sector_size_in_effect(stored_fields(raw).version, stored_fields(raw).sector_size),
        ),
        parse_header(raw) != Err::<HeaderView, Error>(Error::Crypto),
{
}

/// Every accepted header is well formed: its sector size is acceptable, and
/// it is 512 for a format older than version 5, whatever size was stored.
pub proof fn lemma_parsed_header_is_well_formed(raw: Seq<u8>)
    ensures
        parse_header(raw) matches Ok(header) ==> {
            &&& header.wf()
            &&& header.version == be_u16(raw, 4)
            &&& header.version < 5 ==> header.sector_size == 512
            &&& header.version >= 5 ==> header.sector_size == be_u32(raw, 64)
        },
{
}

/// Parsing has no hidden state: the same bytes give the same header or the
/// same error, every time.
pub proof fn lemma_parse_header_is_repeatable(first: Seq<u8>, second: Seq<u8>)
    requires
        first.len() == second.len(),
        forall|i: int| 0 <= i < first.len() ==> first[i] == second[i],
    ensures
        parse_header(first) == parse_header(second),
{
    assert(first =~= second);
}

/// Parsing reads the first 448 bytes and nothing else: what follows them
/// changes neither the header nor the error.
pub proof fn lemma_parse_header_ignores_what_follows(first: Seq<u8>, second: Seq<u8>)
    requires
        first.len() >= HEADER_SIZE,
        second.len() >= HEADER_SIZE,
        first.subrange(0, HEADER_SIZE as int) == second.subrange(0, HEADER_SIZE as int),
    ensures
        parse_header(first) == parse_header(second),
{
    assert forall|i: int| 0 <= i < HEADER_SIZE implies first[i] == second[i] by {
        assert(first.subrange(0, HEADER_SIZE as int)[i] == first[i]);
        assert(second.subrange(0, HEADER_SIZE as int)[i] == second[i]);
    }
    assert(first.subrange(0, 4) =~= second.subrange(0, 4));
    assert(first.subrange(68, 188) =~= second.subrange(68, 188));
    assert(first.subrange(192, 448) =~= second.subrange(192, 448));
}

/// Reads the big-endian 16-bit integer at offset `at`.
pub fn read_be_u16(raw: &[u8], at: usize) -> (v: u16)
    requires
        at + 2 <= raw.len(),
    ensures
        v == be_u16(raw@, at as int),
{
    let high: u16 = raw[at] as u16;
    let low: u16 = raw[at + 1] as u16;
    high * 0x100 + low
}

/// Reads the big-endian 32-bit integer at offset `at`.
pub fn read_be_u32(raw: &[u8], at: usize) -> (v: u32)
    requires
        at + 4 <= raw.len(),
    ensures
        v == be_u32(raw@, at as int),
{
    let high: u32 = read_be_u16(raw, at) as u32;
    let low: u32 = read_be_u16(raw, at + 2) as u32;
    high * 0x1_0000 + low
}

/// Reads the big-endian 64-bit integer at offset `at`.
pub fn read_be_u64(raw: &[u8], at: usize) -> (v: u64)
    requires
        at + 8 <= raw.len(),
    ensures
        v == be_u64(raw@, at as int),
{
    let high: u64 = read_be_u32(raw, at) as u64;
    let low: u64 = read_be_u32(raw, at + 4) as u64;
    high * 0x1_0000_0000 + low
}

/// The sector size that holds for a volume of format `version` whose header
/// stores `stored`.
pub fn effective_sector_size(version: u16, stored: u32) -> (size: u32)
    ensures
        size == sector_size_in_effect(version, stored),
{
    if version < FIRST_VERSION_WITH_SECTOR_SIZE {
        DEFAULT_SECTOR_SIZE
    } else {
        stored
    }
}

/// Tells whether `size` is an acceptable sector size.
pub fn is_valid_sector_size(size: u32) -> (ok: bool)
    ensures
        ok == valid_sector_size(size),
{
    MIN_SECTOR_SIZE <= size && size <= MAX_SECTOR_SIZE && size % ENCRYPTION_DATA_UNIT_SIZE == 0
}

/// Tells whether `raw` opens with the magic marker.
pub fn starts_with_magic(raw: &[u8]) -> (ok: bool)
    ensures
        ok == has_magic(raw@),
{
    if raw.len() < 4 {
        return false;
    }
    let ok: bool = raw[0] == 0x54 && raw[1] == 0x52 && raw[2] == 0x55 && raw[3] == 0x45;
    proof {
        let head = raw@.subrange(0, 4);
        assert(head[0] == raw@[0] && head[1] == raw@[1] && head[2] == raw@[2] && head[3]
            == raw@[3]);
        if ok {
            assert(head =~= magic());
        }
    }
    ok
}

/// A parsed and validated volume header.
#[derive(Debug)]
pub struct TrueCryptHeader {
    version: u16,
    required_program_version: u16,
    key_area_crc: u32,
    creation_time: u64,
    modification_time: u64,
    hidden_volume_size: u64,
    volume_size: u64,
    enc_area_start: u64,
    enc_area_length: u64,
    flags: u32,
    sector_size: u32,
    reserved: Vec<u8>,
    header_crc: u32,
    key_area: Vec<u8>,
}

impl View for TrueCryptHeader {
    type V = HeaderView;

    closed spec fn view(&self) -> HeaderView {
        HeaderView {
            version: self.version,
            required_program_version: self.required_program_version,
            key_area_crc: self.key_area_crc,
            creation_time: self.creation_time,
            modification_time: self.modification_time,
            hidden_volume_size: self.hidden_volume_size,
            volume_size: self.volume_size,
            enc_area_start: self.enc_area_start,
            enc_area_length: self.enc_area_length,
            flags: self.flags,
            sector_size: self.sector_size,
            reserved: self.reserved@,
            header_crc: self.header_crc,
            key_area: self.key_area@,
        }
    }
}

impl TrueCryptHeader {
    /// The invariant that every header handed out by `parse` meets.
    pub open spec fn wf(&self) -> bool {
        self@.wf()
    }

    /// Validates and parses a decrypted header.
    ///
    /// Fails with `WrongPassword` where the magic marker is missing, with
    /// `ParseFailure` where `raw` is shorter than a header, and with
    /// `InvalidHeader` where the sector size in effect is not acceptable.
    /// Bytes beyond the first 448 are ignored.
    pub fn parse(raw: &[u8]) -> (r: Result<TrueCryptHeader, Error>)
        ensures
            match r {
                Ok(header) => header.wf() && parse_header(raw@) == Ok::<HeaderView, Error>(
                    header@,
                ),
                Err(e) => parse_header(raw@) == Err::<HeaderView, Error>(e),
            },
    {
        if raw.len() < 4 {
            return Err(Error::ParseFailure);
        }
        if !starts_with_magic(raw) {
            return Err(Error::WrongPassword);
        }
        if raw.len() < HEADER_SIZE {
            return Err(Error::ParseFailure);
        }
        let version: u16 = read_be_u16(raw, 4);
        let stored_sector_size: u32 = read_be_u32(raw, 64);
        let sector_size: u32 = effective_sector_size(version, stored_sector_size);
        if !is_valid_sector_size(sector_size) {
            return Err(Error::InvalidHeader);
        }
        let header = TrueCryptHeader {
            version,
            required_program_version: read_be_u16(raw, 6),
            key_area_crc: read_be_u32(raw, 8),
            creation_time: read_be_u64(raw, 12),
            modification_time: read_be_u64(raw, 20),
            hidden_volume_size: read_be_u64(raw, 28),
            volume_size: read_be_u64(raw, 36),
            enc_area_start: read_be_u64(raw, 44),
            enc_area_length: read_be_u64(raw, 52),
            flags: read_be_u32(raw, 60),
            sector_size,
            reserved: slice_to_vec(slice_subrange(raw, 68, 188)),
            header_crc: read_be_u32(raw, 188),
            key_area: slice_to_vec(slice_subrange(raw, 192, 448)),
        };
        Ok(header)
    }
    /// The format version.
    pub fn version(&self) -> (v: u16)
        ensures
            v == self@.version,
    {
        self.version
    }

    /// The oldest program version that can read the volume.
    pub fn required_program_version(&self) -> (v: u16)
        ensures
            v == self@.required_program_version,
    {
        self.required_program_version
    }

    /// The checksum stored for the key area.
    pub fn key_area_crc(&self) -> (v: u32)
        ensures
            v == self@.key_area_crc,
    {
        self.key_area_crc
    }

    /// When the volume was created.
    pub fn creation_time(&self) -> (v: u64)
        ensures
            v == self@.creation_time,
    {
        self.creation_time
    }

    /// When the header was last modified.
    pub fn modification_time(&self) -> (v: u64)
        ensures
            v == self@.modification_time,
    {
        self.modification_time
    }

    /// The size of the hidden volume, in bytes.
    pub fn hidden_volume_size(&self) -> (v: u64)
        ensures
            v == self@.hidden_volume_size,
    {
        self.hidden_volume_size
    }

    /// The size of the volume, in bytes.
    pub fn volume_size(&self) -> (v: u64)
        ensures
            v == self@.volume_size,
    {
        self.volume_size
    }

    /// The offset in the container at which the encrypted area starts.
    pub fn enc_area_start(&self) -> (v: u64)
        ensures
            v == self@.enc_area_start,
    {
        self.enc_area_start
    }

    /// The length of the encrypted area, in bytes.
    pub fn enc_area_length(&self) -> (v: u64)
        ensures
            v == self@.enc_area_length,
    {
        self.enc_area_length
    }

    /// The flag bits.
    pub fn flags(&self) -> (v: u32)
        ensures
            v == self@.flags,
    {
        self.flags
    }

    /// The sector size in effect, in bytes.
    pub fn sector_size(&self) -> (v: u32)
        ensures
            v == self@.sector_size,
    {
        self.sector_size
    }

    /// The reserved bytes.
    pub fn reserved(&self) -> (bytes: &[u8])
        ensures
            bytes@ == self@.reserved,
    {
        self.reserved.as_slice()
    }

    /// The checksum stored for the header.
    pub fn header_crc(&self) -> (v: u32)
        ensures
            v == self@.header_crc,
    {
        self.header_crc
    }

    /// The whole key area.
    pub fn key_area(&self) -> (bytes: &[u8])
        ensures
            bytes@ == self@.key_area,
    {
        self.key_area.as_slice()
    }

    /// The volume key: the first 64 bytes of the key area.
    pub fn volume_key(&self) -> (key: &[u8])
        requires
            self.wf(),
        ensures
            key@ == self@.volume_key(),
            key@.len() == VOLUME_KEY_SIZE,
    {
        slice_subrange(self.key_area.as_slice(), 0, VOLUME_KEY_SIZE)
    }
}

} // verus!
