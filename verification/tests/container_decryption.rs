use openssl::hash::MessageDigest;
use openssl::pkcs5::pbkdf2_hmac;
use openssl::symm::encrypt;
use openssl::symm::Cipher;
use truecrypt::codec::decrypt_header;
use truecrypt::codec::derive_header_key;
use truecrypt::codec::open_header;
use truecrypt::container::first_block;
use truecrypt::container::TrueCryptContainer;
use truecrypt::error::Error;
use truecrypt::header::TrueCryptHeader;
use truecrypt::area::decrypt_area;
use truecrypt::tweak::tweak_to_bytes;
use truecrypt::volume::VolumeDecryptor;

const PASSWORD: &str = "correct horse battery staple";

/// What a test container is made of.
struct Fixture {
    version: u16,
    sector_size: u32,
    enc_area_start: u64,
    enc_area_length: u64,
    first_tweak: u128,
    plaintext: Vec<u8>,
}

fn volume_key() -> Vec<u8> {
    (0..64u8).map(|i| i.wrapping_mul(7).wrapping_add(3)).collect()
}

fn salt() -> Vec<u8> {
    (0..64u8).map(|i| i.wrapping_mul(13).wrapping_add(1)).collect()
}

fn plaintext(len: usize) -> Vec<u8> {
    (0..len).map(|i| (i * 31 + i / 251) as u8).collect()
}

fn raw_header(f: &Fixture) -> Vec<u8> {
    let mut raw: Vec<u8> = Vec::new();
    raw.extend_from_slice(b"TRUE");
    raw.extend_from_slice(&f.version.to_be_bytes());
    raw.extend_from_slice(&7u16.to_be_bytes());
    raw.extend_from_slice(&0u32.to_be_bytes());
    raw.extend_from_slice(&0u64.to_be_bytes());
    raw.extend_from_slice(&0u64.to_be_bytes());
    raw.extend_from_slice(&0u64.to_be_bytes());
    raw.extend_from_slice(&f.enc_area_length.to_be_bytes());
    raw.extend_from_slice(&f.enc_area_start.to_be_bytes());
    raw.extend_from_slice(&f.enc_area_length.to_be_bytes());
    raw.extend_from_slice(&0u32.to_be_bytes());
    raw.extend_from_slice(&f.sector_size.to_be_bytes());
    raw.extend_from_slice(&[0u8; 120]);
    raw.extend_from_slice(&0u32.to_be_bytes());
    raw.extend_from_slice(&volume_key());
    raw.extend_from_slice(&[0u8; 192]);
    assert_eq!(raw.len(), 448);
    raw
}

fn reference_header_key(password: &[u8]) -> Vec<u8> {
    let mut key = vec![0u8; 64];
    pbkdf2_hmac(password, &salt(), 2000, MessageDigest::ripemd160(), &mut key).unwrap();
    key
}

/// The sectors of `plain`, each encrypted under a tweak of its own, the
/// first under `first_tweak`.
fn encrypt_area(plain: &[u8], sector_size: usize, first_tweak: u128) -> Vec<u8> {
    let mut area: Vec<u8> = Vec::new();
    let mut tweak = first_tweak;
    for sector in plain.chunks(sector_size) {
        let iv = tweak.to_le_bytes();
        let enc = encrypt(Cipher::aes_256_xts(), &volume_key(), Some(&iv), sector).unwrap();
        assert_eq!(enc.len(), sector.len());
        area.extend_from_slice(&enc);
        tweak += 1;
    }
    area
}

fn effective_sector_size(f: &Fixture) -> usize {
    if f.version < 5 {
        512
    } else {
        f.sector_size as usize
    }
}

fn build_image(f: &Fixture) -> Vec<u8> {
    let key = reference_header_key(PASSWORD.as_bytes());
    let enc_header =
        encrypt(Cipher::aes_256_xts(), &key, Some(&[0u8; 16]), &raw_header(f)).unwrap();
    assert_eq!(enc_header.len(), 448);
    let mut image = salt();
    image.extend_from_slice(&enc_header);
    while (image.len() as u64) < f.enc_area_start {
        image.push(0x5a);
    }
    image.extend_from_slice(&encrypt_area(&f.plaintext, effective_sector_size(f), f.first_tweak));
    image
}

fn fixture(sector_size: u32, enc_area_length: u64, plaintext_len: usize) -> Fixture {
    Fixture {
        version: 5,
        sector_size,
        enc_area_start: 131_072,
        enc_area_length,
        first_tweak: 256,
        plaintext: plaintext(plaintext_len),
    }
}

#[test]
fn header_key_is_pbkdf2_with_ripemd160_and_2000_rounds() {
    let key = derive_header_key(PASSWORD.as_bytes(), &salt()).unwrap();
    assert_eq!(key.len(), 64);
    assert_eq!(key, reference_header_key(PASSWORD.as_bytes()));
    assert_ne!(key, salt());
    let other = derive_header_key(b"another password", &salt()).unwrap();
    assert_eq!(other, reference_header_key(b"another password"));
    assert_ne!(other, key);
    let mut one_round = vec![0u8; 64];
    pbkdf2_hmac(PASSWORD.as_bytes(), &salt(), 1, MessageDigest::ripemd160(), &mut one_round)
        .unwrap();
    assert_ne!(key, one_round);
}

#[test]
fn header_key_of_the_empty_password() {
    let key = derive_header_key(b"", &salt()).unwrap();
    assert_eq!(key, reference_header_key(b""));
}

#[test]
fn header_is_decrypted_under_the_zero_tweak() {
    let f = fixture(512, 1024, 1024);
    let raw = raw_header(&f);
    let key = reference_header_key(PASSWORD.as_bytes());
    let enc = encrypt(Cipher::aes_256_xts(), &key, Some(&[0u8; 16]), &raw).unwrap();
    assert_ne!(enc, raw);
    assert_eq!(decrypt_header(&enc, &key).unwrap(), raw);
    // Under any other tweak the same bytes would not decrypt to the header.
    let mut one = [0u8; 16];
    one[0] = 1;
    let enc_one = encrypt(Cipher::aes_256_xts(), &key, Some(&one), &raw).unwrap();
    assert_ne!(decrypt_header(&enc_one, &key).unwrap(), raw);
}

#[test]
fn open_header_with_the_right_password() {
    let f = fixture(1024, 4096, 4096);
    let image = build_image(&f);
    let header = open_header(&image[..512], PASSWORD).unwrap();
    assert_eq!(header.version(), 5);
    assert_eq!(header.sector_size(), 1024);
    assert_eq!(header.enc_area_start(), 131_072);
    assert_eq!(header.enc_area_length(), 4096);
    assert_eq!(header.volume_key(), &volume_key()[..]);
}

#[test]
fn open_header_with_a_wrong_password() {
    let image = build_image(&fixture(512, 1024, 1024));
    assert_eq!(open_header(&image[..512], "wrong").err(), Some(Error::WrongPassword));
    assert_eq!(open_header(&image[..512], "").err(), Some(Error::WrongPassword));
}

#[test]
fn open_with_a_wrong_password_gives_no_container() {
    let image = build_image(&fixture(512, 1024, 1024));
    let r = TrueCryptContainer::open(image, "Correct horse battery staple");
    assert_eq!(r.err(), Some(Error::WrongPassword));
}

#[test]
fn open_rejects_an_invalid_sector_size() {
    for size in [300u32, 600, 5000, 4608] {
        let mut f = fixture(size, 0, 0);
        f.enc_area_start = 512;
        let r = TrueCryptContainer::open(build_image(&f), PASSWORD);
        assert_eq!(r.err(), Some(Error::InvalidHeader));
    }
}

#[test]
fn open_keeps_the_image_and_the_header() {
    let image = build_image(&fixture(512, 1024, 1024));
    let container = TrueCryptContainer::open(image.clone(), PASSWORD).unwrap();
    assert_eq!(container.image(), &image[..]);
    assert_eq!(container.header().enc_area_length(), 1024);
    assert_eq!(container.data_area(), &image[131_072..]);
}

#[test]
fn open_a_container_shorter_than_its_header_block() {
    let image = build_image(&fixture(512, 1024, 1024));
    let short = image[..300].to_vec();
    let mut block = short.clone();
    block.resize(512, 0);
    assert_eq!(first_block(&short), block);
    assert_eq!(first_block(&image), &image[..512]);
    assert_eq!(first_block(&[]), vec![0u8; 512]);
    // The cipher works block by block: a header cut after its sector size
    // still opens, with zeros decrypted in place of the rest.
    let container = TrueCryptContainer::open(short, PASSWORD).unwrap();
    assert_eq!(container.header().enc_area_length(), 1024);
    assert_ne!(container.header().volume_key(), &volume_key()[..]);
    // With nothing but the salt there is no magic marker to find.
    let r = TrueCryptContainer::open(image[..64].to_vec(), PASSWORD);
    assert_eq!(r.err(), Some(Error::WrongPassword));
    let r = TrueCryptContainer::open(Vec::new(), PASSWORD);
    assert_eq!(r.err(), Some(Error::WrongPassword));
}

#[test]
fn decrypt_writes_the_whole_encrypted_area() {
    let f = fixture(512, 4096, 4096);
    let container = TrueCryptContainer::open(build_image(&f), PASSWORD).unwrap();
    let mut output: Vec<u8> = Vec::new();
    assert_eq!(container.decrypt(&mut output), Ok(4096));
    assert_eq!(output, f.plaintext);
}

#[test]
fn decrypt_appends_to_the_output() {
    let f = fixture(512, 1024, 1024);
    let container = TrueCryptContainer::open(build_image(&f), PASSWORD).unwrap();
    let mut output: Vec<u8> = vec![1, 2, 3];
    assert_eq!(container.decrypt(&mut output), Ok(1024));
    assert_eq!(&output[..3], &[1, 2, 3]);
    assert_eq!(&output[3..], &f.plaintext[..]);
    // A container in memory can be decrypted again, from the start.
    assert_eq!(container.decrypt(&mut output), Ok(1024));
    assert_eq!(&output[1027..], &f.plaintext[..]);
}

#[test]
fn decrypt_stops_at_the_length_of_the_encrypted_area() {
    // More sectors follow in the container than the header counts.
    let f = fixture(512, 1024, 2048);
    let container = TrueCryptContainer::open(build_image(&f), PASSWORD).unwrap();
    let mut output: Vec<u8> = Vec::new();
    assert_eq!(container.decrypt(&mut output), Ok(1024));
    assert_eq!(output, &f.plaintext[..1024]);
}

#[test]
fn tweaks_count_up_from_256() {
    let f = fixture(512, 1536, 1536);
    let image = build_image(&f);
    let area = &image[131_072..];
    let container = TrueCryptContainer::open(image.clone(), PASSWORD).unwrap();
    let mut output: Vec<u8> = Vec::new();
    assert_eq!(container.decrypt(&mut output), Ok(1536));
    for (i, sector) in area.chunks(512).enumerate() {
        let iv = (256 + i as u128).to_le_bytes();
        let plain =
            openssl::symm::decrypt(Cipher::aes_256_xts(), &volume_key(), Some(&iv), sector)
                .unwrap();
        assert_eq!(&output[i * 512..(i + 1) * 512], &plain[..]);
        let iv = (i as u128).to_le_bytes();
        let other =
            openssl::symm::decrypt(Cipher::aes_256_xts(), &volume_key(), Some(&iv), sector)
                .unwrap();
        assert_ne!(&output[i * 512..(i + 1) * 512], &other[..]);
    }
}

#[test]
fn an_area_encrypted_from_tweak_zero_does_not_decrypt() {
    let mut f = fixture(512, 1024, 1024);
    f.first_tweak = 0;
    let container = TrueCryptContainer::open(build_image(&f), PASSWORD).unwrap();
    let mut output: Vec<u8> = Vec::new();
    assert_eq!(container.decrypt(&mut output), Ok(1024));
    assert_ne!(output, f.plaintext);
}

#[test]
fn the_tweak_does_not_depend_on_where_the_area_starts() {
    let mut f = fixture(512, 1024, 1024);
    f.enc_area_start = 512;
    let container = TrueCryptContainer::open(build_image(&f), PASSWORD).unwrap();
    let mut output: Vec<u8> = Vec::new();
    assert_eq!(container.decrypt(&mut output), Ok(1024));
    assert_eq!(output, f.plaintext);
}

#[test]
fn large_sectors_still_step_the_tweak_by_one() {
    let f = fixture(4096, 3 * 4096, 3 * 4096);
    let container = TrueCryptContainer::open(build_image(&f), PASSWORD).unwrap();
    let mut output: Vec<u8> = Vec::new();
    assert_eq!(container.decrypt(&mut output), Ok(3 * 4096));
    assert_eq!(output, f.plaintext);
}

#[test]
fn old_format_is_decrypted_in_512_byte_sectors() {
    let mut f = fixture(4096, 2048, 2048);
    f.version = 4;
    let container = TrueCryptContainer::open(build_image(&f), PASSWORD).unwrap();
    assert_eq!(container.header().sector_size(), 512);
    let mut output: Vec<u8> = Vec::new();
    assert_eq!(container.decrypt(&mut output), Ok(2048));
    assert_eq!(output, f.plaintext);
}

#[test]
fn a_short_last_sector_is_not_padded() {
    let f = fixture(512, 1000, 1000);
    let container = TrueCryptContainer::open(build_image(&f), PASSWORD).unwrap();
    let mut output: Vec<u8> = Vec::new();
    assert_eq!(container.decrypt(&mut output), Ok(1000));
    assert_eq!(output.len(), 1000);
    assert_eq!(output, f.plaintext);
}

#[test]
fn a_short_last_sector_of_a_large_sector_size() {
    let f = fixture(1024, 2500, 2500);
    let container = TrueCryptContainer::open(build_image(&f), PASSWORD).unwrap();
    let mut output: Vec<u8> = Vec::new();
    assert_eq!(container.decrypt(&mut output), Ok(2500));
    assert_eq!(output, f.plaintext);
}

#[test]
fn a_container_that_ends_early_gives_what_it_has() {
    let f = fixture(512, 4096, 1536);
    let container = TrueCryptContainer::open(build_image(&f), PASSWORD).unwrap();
    let mut output: Vec<u8> = Vec::new();
    assert_eq!(container.decrypt(&mut output), Ok(1536));
    assert_eq!(output, f.plaintext);
}

#[test]
fn whole_sectors_are_written_past_an_uneven_length() {
    // The header counts 1000 bytes, but the container holds two whole
    // sectors: both are decrypted in full.
    let f = fixture(512, 1000, 1024);
    let container = TrueCryptContainer::open(build_image(&f), PASSWORD).unwrap();
    let mut output: Vec<u8> = Vec::new();
    assert_eq!(container.decrypt(&mut output), Ok(1024));
    assert_eq!(output, f.plaintext);
}

#[test]
fn an_empty_area_gives_nothing() {
    let f = fixture(512, 0, 1024);
    let container = TrueCryptContainer::open(build_image(&f), PASSWORD).unwrap();
    let mut output: Vec<u8> = Vec::new();
    assert_eq!(container.decrypt(&mut output), Ok(0));
    assert!(output.is_empty());
}

#[test]
fn an_area_that_starts_past_the_end_gives_nothing() {
    let mut f = fixture(512, 1024, 0);
    f.enc_area_start = 1 << 40;
    let key = reference_header_key(PASSWORD.as_bytes());
    let enc_header =
        encrypt(Cipher::aes_256_xts(), &key, Some(&[0u8; 16]), &raw_header(&f)).unwrap();
    let mut image = salt();
    image.extend_from_slice(&enc_header);
    let container = TrueCryptContainer::open(image, PASSWORD).unwrap();
    assert!(container.data_area().is_empty());
    let mut output: Vec<u8> = Vec::new();
    assert_eq!(container.decrypt(&mut output), Ok(0));
    assert!(output.is_empty());
}

#[test]
fn a_sector_too_short_for_the_cipher_fails() {
    // XTS needs a whole cipher block of 16 bytes.
    let f = fixture(512, 1024, 512);
    let mut image = build_image(&f);
    image.extend_from_slice(&[1, 2, 3, 4, 5]);
    let container = TrueCryptContainer::open(image, PASSWORD).unwrap();
    let mut output: Vec<u8> = Vec::new();
    assert_eq!(container.decrypt(&mut output), Err(Error::Crypto));
    // The sector before the failure was written.
    assert_eq!(output, &f.plaintext[..512]);
}

#[test]
fn decrypt_area_agrees_with_decrypt() {
    let f = fixture(1024, 3000, 3000);
    let image = build_image(&f);
    let header = open_header(&image[..512], PASSWORD).unwrap();
    let mut output: Vec<u8> = Vec::new();
    assert_eq!(decrypt_area(&header, &image[131_072..], &mut output), Ok(3000));
    assert_eq!(output, f.plaintext);
}

#[test]
fn tweak_bytes_are_little_endian() {
    assert_eq!(tweak_to_bytes(0), vec![0u8; 16]);
    assert_eq!(tweak_to_bytes(256), 256u128.to_le_bytes().to_vec());
    let mut expected = vec![0u8; 16];
    expected[1] = 1;
    assert_eq!(tweak_to_bytes(256), expected);
    assert_eq!(tweak_to_bytes(257)[..2], [1, 1]);
    assert_eq!(tweak_to_bytes(u128::MAX), vec![0xffu8; 16]);
    let value: u128 = 0x0102_0304_0506_0708_090a_0b0c_0d0e_0f10;
    assert_eq!(tweak_to_bytes(value), value.to_le_bytes().to_vec());
}

fn header_for(sector_size: u32, enc_area_length: u64) -> TrueCryptHeader {
    TrueCryptHeader::parse(&raw_header(&fixture(sector_size, enc_area_length, 0))).unwrap()
}

#[test]
fn decryptor_starts_at_tweak_256() {
    let d = VolumeDecryptor::new(&header_for(1024, 4096));
    assert_eq!(d.tweak(), 256);
    assert_eq!(d.bytes_written(), 0);
    assert_eq!(d.sector_size(), 1024);
    assert!(!d.is_finished());
    assert!(VolumeDecryptor::new(&header_for(512, 0)).is_finished());
}

#[test]
fn decryptor_steps_sector_by_sector() {
    let plain = plaintext(1536);
    let area = encrypt_area(&plain, 512, 256);
    let mut d = VolumeDecryptor::new(&header_for(512, 1536));
    assert_eq!(d.decrypt_sector(&area[..512]).unwrap(), &plain[..512]);
    assert_eq!(d.tweak(), 257);
    assert_eq!(d.bytes_written(), 512);
    assert!(!d.is_finished());
    assert_eq!(d.decrypt_sector(&area[512..1024]).unwrap(), &plain[512..1024]);
    assert_eq!(d.tweak(), 258);
    assert_eq!(d.decrypt_sector(&area[1024..]).unwrap(), &plain[1024..]);
    assert_eq!(d.tweak(), 259);
    assert_eq!(d.bytes_written(), 1536);
    assert!(d.is_finished());
    // Nothing happens once the decryption is finished.
    assert_eq!(d.decrypt_sector(&area[..512]).unwrap(), Vec::<u8>::new());
    assert_eq!(d.tweak(), 259);
    assert_eq!(d.bytes_written(), 1536);
}

#[test]
fn a_short_read_is_the_last() {
    let plain = plaintext(700);
    let area = encrypt_area(&plain, 512, 256);
    let mut d = VolumeDecryptor::new(&header_for(512, 4096));
    assert_eq!(d.decrypt_sector(&area[..512]).unwrap(), &plain[..512]);
    assert!(!d.is_finished());
    assert_eq!(d.decrypt_sector(&area[512..]).unwrap(), &plain[512..]);
    assert!(d.is_finished());
    assert_eq!(d.bytes_written(), 700);
    assert_eq!(d.tweak(), 258);
}

#[test]
fn an_empty_read_ends_the_decryption() {
    let mut d = VolumeDecryptor::new(&header_for(512, 4096));
    assert_eq!(d.decrypt_sector(&[]).unwrap(), Vec::<u8>::new());
    assert!(d.is_finished());
    assert_eq!(d.tweak(), 256);
    assert_eq!(d.bytes_written(), 0);
}

#[test]
fn a_failed_sector_changes_nothing() {
    let mut d = VolumeDecryptor::new(&header_for(512, 4096));
    assert_eq!(d.decrypt_sector(&[9, 9, 9]).err(), Some(Error::Crypto));
    assert_eq!(d.tweak(), 256);
    assert_eq!(d.bytes_written(), 0);
    assert!(!d.is_finished());
}

#[test]
fn plaintext_is_cut_to_the_bytes_read() {
    let mut d = VolumeDecryptor::new(&header_for(512, 4096));
    let out = d.accept_plaintext(vec![7u8; 512], 512).unwrap();
    assert_eq!(out, vec![7u8; 512]);
    assert_eq!(d.tweak(), 257);
    assert!(!d.is_finished());
    let out = d.accept_plaintext((0..=255u8).collect(), 100).unwrap();
    assert_eq!(out, (0..100u8).collect::<Vec<u8>>());
    assert_eq!(d.tweak(), 258);
    assert_eq!(d.bytes_written(), 612);
    assert!(d.is_finished());
}

#[test]
fn plaintext_shorter_than_the_sector_is_refused() {
    let mut d = VolumeDecryptor::new(&header_for(512, 4096));
    assert_eq!(d.accept_plaintext(vec![7u8; 511], 512).err(), Some(Error::Crypto));
    assert_eq!(d.tweak(), 256);
    assert_eq!(d.bytes_written(), 0);
    assert!(!d.is_finished());
}
