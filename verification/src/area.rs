//! Decryption of a whole data area held in memory, and what it gives.
//!
//! The data area is cut into sectors. The sector with index `i` is decrypted
//! under the tweak `256 + i`, and the plaintexts follow each other in the
//! output as the sectors do in the area.

use crate::error::Error;
use crate::header::HeaderView;
use crate::header::TrueCryptHeader;
use crate::volume::sector_plaintext;
use crate::volume::VolumeDecryptor;
use crate::volume::INITIAL_TWEAK;
use vstd::arithmetic::div_mod::lemma_fundamental_div_mod;
use vstd::arithmetic::div_mod::lemma_fundamental_div_mod_converse;
use vstd::arithmetic::div_mod::lemma_mod_bound;
use vstd::prelude::*;
use vstd::slice::slice_subrange;

verus! {

/// How many sectors of `sector_size` bytes it takes to hold `length` bytes.
pub open spec fn sectors_needed(length: nat, sector_size: nat) -> nat {
    ((length + sector_size - 1) / (sector_size as int)) as nat
}

/// How many bytes are decrypted of an area that the header says is `length`
/// bytes long and of which `available` bytes can be read.
///
/// Whole sectors are decrypted until `length` is reached, so the count is
/// `length` rounded up to whole sectors, unless the input ends before that.
pub open spec fn bytes_decrypted(length: nat, sector_size: nat, available: nat) -> nat {
    let padded = sectors_needed(length, sector_size) * sector_size;
    if available < padded {
        available
    } else {
        padded
    }
}

/// How many sectors are decrypted of such an area, a short last one
/// included.
pub open spec fn sectors_decrypted(length: nat, sector_size: nat, available: nat) -> nat {
    sectors_needed(bytes_decrypted(length, sector_size, available), sector_size)
}

/// The offset in the data area at which the sector with index `index`
/// starts.
pub open spec fn sector_start(sector_size: nat, index: nat) -> int {
    (index * sector_size) as int
}

/// The bytes of the sector with index `index` in `area`. The last sector is
/// short where `area` ends within it.
pub open spec fn sector_chunk(area: Seq<u8>, sector_size: nat, index: nat) -> Seq<u8> {
    let from: int = sector_start(sector_size, index);
    let to: int = if from + sector_size < area.len() {
        from + sector_size
    } else {
        area.len() as int
    };
    area.subrange(from, to)
}

/// The plaintext of the first `count` sectors of `area`. The sector with
/// index `i` is decrypted under the tweak `256 + i`.
pub open spec fn area_plaintext(key: Seq<u8>, sector_size: nat, area: Seq<u8>, count: nat) -> Seq<
    u8,
>
    decreases count,
{
    if count == 0 {
        Seq::empty()
    } else {
        let index = (count - 1) as nat;
        area_plaintext(key, sector_size, area, index) + sector_plaintext(
            key,
            INITIAL_TWEAK as nat + index,
            sector_chunk(area, sector_size, index),
        )
    }
}

/// How many bytes a decryption of `area` writes for the volume of `header`.
pub open spec fn decrypted_len(header: HeaderView, area: Seq<u8>) -> nat {
    bytes_decrypted(header.enc_area_length as nat, header.sector_size as nat, area.len())
}

/// How many sectors a decryption of `area` takes for the volume of `header`.
pub open spec fn decrypted_sectors(header: HeaderView, area: Seq<u8>) -> nat {
    sectors_decrypted(header.enc_area_length as nat, header.sector_size as nat, area.len())
}

/// The plaintext of the first `count` sectors of `area` for the volume of
/// `header`.
pub open spec fn plaintext_prefix(header: HeaderView, area: Seq<u8>, count: nat) -> Seq<u8> {
    area_plaintext(header.volume_key(), header.sector_size as nat, area, count)
}

/// One sector more takes a whole sector's bytes more.
proof fn lemma_one_sector_more(fewer: nat, more: nat, sector_size: nat)
    requires
        fewer < more,
    ensures
        (fewer + 1) * sector_size == fewer * sector_size + sector_size,
        fewer * sector_size + sector_size <= more * sector_size,
{
    assert((fewer + 1) * sector_size == fewer * sector_size + sector_size) by (nonlinear_arith);
    assert((fewer + 1) * sector_size <= more * sector_size) by (nonlinear_arith)
        requires
            fewer + 1 <= more,
    ;
}

/// `sectors_needed` rounds up: that many sectors hold `length` bytes, and
/// one fewer would not.
pub proof fn lemma_sectors_needed(length: nat, sector_size: nat)
    requires
        sector_size > 0,
    ensures
        length <= sectors_needed(length, sector_size) * sector_size < length + sector_size,
{
    let x = length + sector_size - 1;
    lemma_fundamental_div_mod(x, sector_size as int);
    lemma_mod_bound(x, sector_size as int);
    assert(sector_size * (x / (sector_size as int)) == (x / (sector_size as int)) * sector_size)
        by (nonlinear_arith);
}

/// `count` sectors are needed for `length` bytes exactly where `count`
/// sectors hold them and `count - 1` do not.
pub proof fn lemma_sectors_needed_unique(length: nat, sector_size: nat, count: nat)
    requires
        sector_size > 0,
        length <= count * sector_size < length + sector_size,
    ensures
        sectors_needed(length, sector_size) == count,
{
    let needed = sectors_needed(length, sector_size);
    lemma_sectors_needed(length, sector_size);
    if needed < count {
        lemma_one_sector_more(needed, count, sector_size);
    }
    if needed > count {
        lemma_one_sector_more(count, needed, sector_size);
    }
}

/// More bytes never need fewer sectors.
pub proof fn lemma_sectors_needed_monotonic(shorter: nat, longer: nat, sector_size: nat)
    requires
        sector_size > 0,
        shorter <= longer,
    ensures
        sectors_needed(shorter, sector_size) <= sectors_needed(longer, sector_size),
{
    let a = sectors_needed(shorter, sector_size);
    let b = sectors_needed(longer, sector_size);
    lemma_sectors_needed(shorter, sector_size);
    lemma_sectors_needed(longer, sector_size);
    if b < a {
        lemma_one_sector_more(b, a, sector_size);
    }
}

/// Sectors that fall short of `length` bytes are fewer than are needed, and
/// sectors that hold `length` bytes are as many as are needed, or more.
pub proof fn lemma_sectors_needed_compare(length: nat, sector_size: nat, count: nat)
    requires
        sector_size > 0,
    ensures
        count * sector_size < length ==> count < sectors_needed(length, sector_size),
        count * sector_size >= length ==> sectors_needed(length, sector_size) <= count,
{
    let needed = sectors_needed(length, sector_size);
    lemma_sectors_needed(length, sector_size);
    if needed < count {
        lemma_one_sector_more(needed, count, sector_size);
    }
    if count < needed {
        lemma_one_sector_more(count, needed, sector_size);
    }
}

/// Where the encrypted area is made of whole sectors and the input holds
/// all of it, exactly `length` bytes are decrypted.
pub proof fn lemma_whole_sectors_are_decrypted_exactly(
    length: nat,
    sector_size: nat,
    available: nat,
)
    requires
        sector_size > 0,
        length % sector_size == 0,
        available >= length,
    ensures
        bytes_decrypted(length, sector_size, available) == length,
{
    let whole = length / sector_size;
    lemma_fundamental_div_mod(length as int, sector_size as int);
    assert(sector_size * whole == whole * sector_size) by (nonlinear_arith);
    lemma_sectors_needed_unique(length, sector_size, whole);
}

/// Where the input ends where the encrypted area ends, exactly `length` bytes
/// are decrypted: a last sector that is short is cut, not padded.
pub proof fn lemma_short_last_sector_is_not_padded(length: nat, sector_size: nat, available: nat)
    requires
        sector_size > 0,
        available == length,
    ensures
        bytes_decrypted(length, sector_size, available) == length,
{
    lemma_sectors_needed(length, sector_size);
}

/// Where the encrypted area does not end with a sector and the input goes
/// on beyond it, the last sector is decrypted whole: more than `length`
/// bytes are decrypted.
pub proof fn lemma_uneven_length_is_rounded_up(length: nat, sector_size: nat, available: nat)
    requires
        sector_size > 0,
        length % sector_size != 0,
        available > length,
    ensures
        bytes_decrypted(length, sector_size, available) > length,
{
    let needed = sectors_needed(length, sector_size);
    lemma_sectors_needed(length, sector_size);
    if needed * sector_size == length {
        lemma_fundamental_div_mod_converse(length as int, sector_size as int, needed as int, 0);
    }
}

/// Never more is decrypted than the input holds, nor a whole sector more
/// than the encrypted area is long; and never less than the smaller of the
/// two.
pub proof fn lemma_bytes_decrypted_bounds(length: nat, sector_size: nat, available: nat)
    requires
        sector_size > 0,
    ensures
        bytes_decrypted(length, sector_size, available) <= available,
        bytes_decrypted(length, sector_size, available) < length + sector_size,
        available >= length ==> bytes_decrypted(length, sector_size, available) >= length,
        available <= length ==> bytes_decrypted(length, sector_size, available) == available,
        sectors_decrypted(length, sector_size, available) <= sectors_needed(
            available,
            sector_size,
        ),
{
    lemma_sectors_needed(length, sector_size);
    lemma_sectors_needed_monotonic(
        bytes_decrypted(length, sector_size, available),
        available,
        sector_size,
    );
}

/// A sector that starts within `area` holds a whole sector's bytes, or what
/// is left of `area`.
pub proof fn lemma_sector_chunk_len(area: Seq<u8>, sector_size: nat, index: nat)
    requires
        index * sector_size <= area.len(),
    ensures
        sector_chunk(area, sector_size, index).len() == if index * sector_size + sector_size
            < area.len() {
            sector_size as int
        } else {
            area.len() - index * sector_size
        },
{
}

/// The plaintext of the first `count` sectors is as long as these sectors
/// are: `count` whole sectors, or all of `area` where it ends within them.
pub proof fn lemma_area_plaintext_len(key: Seq<u8>, sector_size: nat, area: Seq<u8>, count: nat)
    requires
        sector_size > 0,
        count <= sectors_needed(area.len(), sector_size),
    ensures
        area_plaintext(key, sector_size, area, count).len() == if count * sector_size
            < area.len() {
            count * sector_size
        } else {
            area.len()
        },
    decreases count,
{
    if count > 0 {
        let index = (count - 1) as nat;
        let needed = sectors_needed(area.len(), sector_size);
        lemma_area_plaintext_len(key, sector_size, area, index);
        lemma_sectors_needed(area.len(), sector_size);
        lemma_one_sector_more(index, needed, sector_size);
        assert(count * sector_size == index * sector_size + sector_size) by (nonlinear_arith)
            requires
                count == index + 1,
        ;
        lemma_sector_chunk_len(area, sector_size, index);
    } else {
        assert(count * sector_size == 0) by (nonlinear_arith)
            requires
                count == 0,
        ;
    }
}

/// In the plaintext of the first `count` sectors, the sector with index
/// `index` stands at the offset at which it starts in the data area, and is
/// what the cipher recovers from that sector under the tweak `256 + index`.
pub proof fn lemma_sector_in_area_plaintext(
    key: Seq<u8>,
    sector_size: nat,
    area: Seq<u8>,
    count: nat,
    index: nat,
)
    requires
        sector_size > 0,
        index < count <= sectors_needed(area.len(), sector_size),
    ensures
        area_plaintext(key, sector_size, area, count).subrange(
            sector_start(sector_size, index),
            sector_start(sector_size, index) + sector_chunk(area, sector_size, index).len(),
        ) == sector_plaintext(
            key,
            INITIAL_TWEAK as nat + index,
            sector_chunk(area, sector_size, index),
        ),
    decreases count,
{
    let last = (count - 1) as nat;
    let before = area_plaintext(key, sector_size, area, last);
    let chunk = sector_chunk(area, sector_size, index);
    let plain = sector_plaintext(key, INITIAL_TWEAK as nat + index, chunk);
    let needed = sectors_needed(area.len(), sector_size);
    lemma_area_plaintext_len(key, sector_size, area, last);
    lemma_sectors_needed(area.len(), sector_size);
    lemma_one_sector_more(last, needed, sector_size);
    assert(before.len() == last * sector_size);
    let from = sector_start(sector_size, index);
    if index == last {
        assert((before + plain).subrange(from, from + chunk.len()) =~= plain);
    } else {
        lemma_sector_in_area_plaintext(key, sector_size, area, last, index);
        lemma_one_sector_more(index, last, sector_size);
        lemma_sector_chunk_len(area, sector_size, index);
        let tail = sector_plaintext(
            key,
            INITIAL_TWEAK as nat + last,
            sector_chunk(area, sector_size, last),
        );
        assert((before + tail).subrange(from, from + chunk.len()) =~= before.subrange(
            from,
            from + chunk.len(),
        ));
    }
}

/// A decryption writes exactly as many bytes as the header says the
/// encrypted area is long, where the container holds that many and either
/// the area is made of whole sectors or the container ends with it.
pub proof fn lemma_decrypt_writes_enc_area_length(header: HeaderView, area: Seq<u8>)
    requires
        header.wf(),
        area.len() >= header.enc_area_length,
        header.enc_area_length % (header.sector_size as u64) == 0 || area.len()
            == header.enc_area_length,
    ensures
        decrypted_len(header, area) == header.enc_area_length,
{
    let length = header.enc_area_length as nat;
    let size = header.sector_size as nat;
    if area.len() == length {
        lemma_short_last_sector_is_not_padded(length, size, area.len());
    } else {
        lemma_whole_sectors_are_decrypted_exactly(length, size, area.len());
    }
}

/// What a decryption of `area` gives is as long as `decrypted_len` says.
pub proof fn lemma_decrypted_plaintext_len(header: HeaderView, area: Seq<u8>)
    requires
        header.wf(),
    ensures
        plaintext_prefix(header, area, decrypted_sectors(header, area)).len() == decrypted_len(
            header,
            area,
        ),
{
    let size = header.sector_size as nat;
    let length = header.enc_area_length as nat;
    let needed = sectors_needed(length, size);
    let count = decrypted_sectors(header, area);
    lemma_bytes_decrypted_bounds(length, size, area.len());
    lemma_area_plaintext_len(header.volume_key(), size, area, count);
    lemma_sectors_needed(decrypted_len(header, area), size);
    if area.len() >= needed * size {
        lemma_sectors_needed(length, size);
        lemma_sectors_needed_unique(needed * size, size, needed);
    }
}

/// In what a decryption of `area` gives, every sector stands at the offset
/// at which it starts in the area, and is what the cipher recovers from it
/// under the tweak `256 + index`, where `index` counts the sectors from zero.
pub proof fn lemma_decrypted_sector(header: HeaderView, area: Seq<u8>, index: nat)
    requires
        header.wf(),
        index < decrypted_sectors(header, area),
    ensures
        plaintext_prefix(header, area, decrypted_sectors(header, area)).subrange(
            sector_start(header.sector_size as nat, index),
            sector_start(header.sector_size as nat, index) + sector_chunk(
                area,
                header.sector_size as nat,
                index,
            ).len(),
        ) == sector_plaintext(
            header.volume_key(),
            INITIAL_TWEAK as nat + index,
            sector_chunk(area, header.sector_size as nat, index),
        ),
{
    let size = header.sector_size as nat;
    lemma_bytes_decrypted_bounds(header.enc_area_length as nat, size, area.len());
    lemma_sector_in_area_plaintext(
        header.volume_key(),
        size,
        area,
        decrypted_sectors(header, area),
        index,
    );
}

/// Decrypts a whole data area held in memory and appends the plaintext to
/// `output`. Returns how many bytes it appended.
///
/// `area` holds the container from the start of the encrypted area to its
/// end. Sectors are decrypted one after the other, the first under the tweak
/// 256, until as many bytes are written as the header's length of the
/// encrypted area asks for, or until `area` ends. A last sector that `area`
/// cuts short is decrypted as far as it goes.
///
/// Fails with `Crypto` where the cipher fails on a sector; `output` then
/// holds the plaintext of the sectors before it.
pub fn decrypt_area(header: &TrueCryptHeader, area: &[u8], output: &mut Vec<u8>) -> (r: Result<
    usize,
    Error,
>)
    requires
        header.wf(),
    ensures
        match r {
            Ok(n) => {
                &&& n == decrypted_len(header@, area@)
                &&& final(output)@ == old(output)@ + plaintext_prefix(
                    header@,
                    area@,
                    decrypted_sectors(header@, area@),
                )
                &&& final(output)@.len() == old(output)@.len() + n
            },
            Err(e) => {
                &&& e == Error::Crypto
                &&& exists|count: nat|
                    count < decrypted_sectors(header@, area@) && final(output)@ == old(output)@
                        + #[trigger] plaintext_prefix(header@, area@, count)
            },
        },
{
    let ghost before = output@;
    let ghost key = header@.volume_key();
    let ghost size = header@.sector_size as nat;
    let ghost length = header@.enc_area_length as nat;
    let ghost needed = sectors_needed(length, size);
    let mut decryptor = VolumeDecryptor::new(header);
    let sector_size: usize = decryptor.sector_size();
    let mut pos: usize = 0;
    // How many sectors have been decrypted.
    let ghost mut count: nat = 0;
    proof {
        lemma_sectors_needed_unique(0, size, 0);
        assert(output@ =~= before + area_plaintext(key, size, area@, 0));
    }
    while !decryptor.is_finished()
        invariant
            before == old(output)@,
            key == header@.volume_key(),
            size == header@.sector_size == sector_size,
            length == header@.enc_area_length,
            needed == sectors_needed(length, size),
            size > 0,
            decryptor.wf(),
            decryptor@.key == key,
            decryptor@.sector_size == size,
            decryptor@.length == length,
            decryptor@.tweak == INITIAL_TWEAK + count,
            decryptor@.written == pos,
            pos <= area@.len(),
            pos <= needed * size,
            !decryptor@.stopped ==> pos == count * size,
            decryptor@.stopped ==> pos == area@.len(),
            count == sectors_needed(pos as nat, size),
            output@ == before + area_plaintext(key, size, area@, count),
            output@.len() == before.len() + pos,
        decreases area@.len() - pos, (if decryptor@.stopped { 0int } else { 1int }),
    {
        let rest: usize = area.len() - pos;
        let n: usize = if rest < sector_size {
            rest
        } else {
            sector_size
        };
        let chunk: &[u8] = slice_subrange(area, pos, pos + n);
        proof {
            // The sector starts below `length`, so it is one of those needed.
            lemma_sectors_needed_compare(length, size, count);
            lemma_one_sector_more(count, needed, size);
            if n > 0 {
                assert(chunk@ =~= sector_chunk(area@, size, count));
                lemma_sectors_needed_unique((pos + n) as nat, size, count + 1);
            }
        }
        match decryptor.decrypt_sector(chunk) {
            Ok(mut plain) => {
                proof {
                    if n > 0 {
                        assert(output@ + plain@ =~= before + area_plaintext(
                            key,
                            size,
                            area@,
                            count + 1,
                        ));
                        count = count + 1;
                    } else {
                        assert(output@ + plain@ =~= output@);
                    }
                }
                output.append(&mut plain);
                pos = pos + n;
            },
            Err(e) => {
                proof {
                    // The sector that failed has the index `count`, and it
                    // is one of those that are due.
                    lemma_sectors_needed_compare(
                        bytes_decrypted(length, size, area@.len()),
                        size,
                        count,
                    );
                    assert(output@ == before + plaintext_prefix(header@, area@, count));
                }
                return Err(e);
            },
        }
    }
    proof {
        if !decryptor@.stopped {
            // Whole sectors were decrypted until `length` was reached.
            lemma_sectors_needed_compare(length, size, count);
            if needed < count {
                lemma_one_sector_more(needed, count, size);
            }
        }
        assert(pos == bytes_decrypted(length, size, area@.len()));
    }
    Ok(pos)
}

} // verus!
