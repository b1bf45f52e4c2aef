//! A container held in memory: its bytes and its opened header.

use crate::area::decrypt_area;
use crate::area::decrypted_len;
use crate::area::decrypted_sectors;
use crate::area::plaintext_prefix;
use crate::codec::open_header;
use crate::codec::opened_header;
use crate::codec::HEADER_BLOCK_SIZE;
use crate::codec::MAX_PASSWORD_SIZE;
use crate::error::Error;
use crate::header::HeaderView;
use crate::header::TrueCryptHeader;
use vstd::prelude::*;
use vstd::slice::slice_subrange;
use vstd::string::StringSliceAdditionalSpecFns;

verus! {

/// The block that opens `image`: its first 512 bytes, with zeros in place of
/// what a shorter image lacks.
pub open spec fn header_block(image: Seq<u8>) -> Seq<u8> {
    Seq::new(
        HEADER_BLOCK_SIZE as nat,
        |i: int|
            if i < image.len() {
                image[i]
            } else {
                0u8
            },
    )
}

/// Copies the block that opens `image`.
pub fn first_block(image: &[u8]) -> (block: Vec<u8>)
    ensures
        block@ == header_block(image@),
{
    let mut block: Vec<u8> = Vec::new();
    let mut i: usize = 0;
    while i < HEADER_BLOCK_SIZE
        invariant
            i <= HEADER_BLOCK_SIZE,
            block@.len() == i,
            forall|j: int| 0 <= j < i ==> block@[j] == header_block(image@)[j],
        decreases HEADER_BLOCK_SIZE - i,
    {
        let byte: u8 = if i < image.len() {
            image[i]
        } else {
            0
        };
        block.push(byte);
        i += 1;
    }
    proof {
        assert(block@ =~= header_block(image@));
    }
    block
}

/// What a container holds, as mathematical values.
pub ghost struct ContainerView {
    /// Every byte of the container file.
    pub image: Seq<u8>,
    /// The opened header.
    pub header: HeaderView,
}

impl ContainerView {
    /// The bytes from the start of the encrypted area to the end of the
    /// container; none where the container ends before that start.
    pub open spec fn data_area(self) -> Seq<u8> {
        if self.header.enc_area_start <= self.image.len() {
            self.image.subrange(self.header.enc_area_start as int, self.image.len() as int)
        } else {
            Seq::empty()
        }
    }
}

/// A container whose header has been opened with the right password.
#[derive(Debug)]
pub struct TrueCryptContainer {
    image: Vec<u8>,
    header: TrueCryptHeader,
}

impl View for TrueCryptContainer {
    type V = ContainerView;

    closed spec fn view(&self) -> ContainerView {
        ContainerView { image: self.image@, header: self.header@ }
    }
}

impl TrueCryptContainer {
    /// The invariant of a container: its header is well formed.
    pub open spec fn wf(&self) -> bool {
        self@.header.wf()
    }

    /// Opens the container whose bytes are `image` with `password`.
    ///
    /// Fails with `Crypto` where a primitive fails. Otherwise it fails
    /// exactly where parsing the decrypted header does: with `WrongPassword`
    /// where the magic marker is missing, which is all that tells a wrong
    /// password from a damaged container, and with `InvalidHeader` where the
    /// sector size is not acceptable. No byte of the data area is touched.
    pub fn open(image: Vec<u8>, password: &str) -> (r: Result<TrueCryptContainer, Error>)
        ensures
            match r {
                Ok(container) => {
                    &&& container.wf()
                    &&& container@.image == image@
                    &&& opened_header(header_block(image@), password.spec_bytes()) == Ok::<
                        HeaderView,
                        Error,
                    >(container@.header)
                },
                Err(e) => e == Error::Crypto || opened_header(
                    header_block(image@),
                    password.spec_bytes(),
                ) == Err::<HeaderView, Error>(e),
            },
            password.spec_bytes().len() > MAX_PASSWORD_SIZE ==> r matches Err(Error::Crypto),
    {
        let block: Vec<u8> = first_block(image.as_slice());
        match open_header(block.as_slice(), password) {
            Ok(header) => Ok(TrueCryptContainer { image, header }),
            Err(e) => Err(e),
        }
    }

    /// The opened header.
    pub fn header(&self) -> (header: &TrueCryptHeader)
        ensures
            header@ == self@.header,
    {
        &self.header
    }

    /// Every byte of the container.
    pub fn image(&self) -> (image: &[u8])
        ensures
            image@ == self@.image,
    {
        self.image.as_slice()
    }

    /// The bytes from the start of the encrypted area to the end of the
    /// container.
    pub fn data_area(&self) -> (area: &[u8])
        ensures
            area@ == self@.data_area(),
    {
        let len: usize = self.image.len();
        let start: u64 = self.header.enc_area_start();
        if start <= len as u64 {
            slice_subrange(self.image.as_slice(), start as usize, len)
        } else {
            slice_subrange(self.image.as_slice(), len, len)
        }
    }

    /// Decrypts the data area and appends the plaintext to `output`. Returns
    /// how many bytes it appended.
    ///
    /// The sectors are decrypted in order, the first under the tweak 256 and
    /// each next one under a tweak greater by one, until as many bytes are
    /// written as the header's length of the encrypted area asks for, or
    /// until the container ends.
    ///
    /// Fails with `Crypto` where the cipher fails on a sector; `output` then
    /// holds the plaintext of the sectors before it.
    pub fn decrypt(&self, output: &mut Vec<u8>) -> (r: Result<usize, Error>)
        requires
            self.wf(),
        ensures
            match r {
                Ok(n) => {
                    &&& n == decrypted_len(self@.header, self@.data_area())
                    &&& final(output)@ == old(output)@ + plaintext_prefix(
                        self@.header,
                        self@.data_area(),
                        decrypted_sectors(self@.header, self@.data_area()),
                    )
                    &&& final(output)@.len() == old(output)@.len() + n
                },
                Err(e) => {
                    &&& e == Error::Crypto
                    &&& exists|count: nat|
                        count < decrypted_sectors(self@.header, self@.data_area())
                            && final(output)@ == old(output)@ + #[trigger] plaintext_prefix(
                            self@.header,
                            self@.data_area(),
                            count,
                        )
                },
            },
    {
        decrypt_area(&self.header, self.data_area(), output)
    }
}

} // verus!
