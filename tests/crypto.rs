use cbc::cipher::block_padding::NoPadding;
use cbc::cipher::{BlockEncryptMut, KeyIvInit};
use deezer_dl::crypto::{
    aes_ecb_encrypt, decrypt_chunk, decrypt_stream, encrypt_stream, generate_blowfish_key,
    md5_hex, stream_key_from_digest,
};

fn sample(len: usize) -> Vec<u8> {
    (0..len).map(|i| ((i * 31 + 7) % 251) as u8).collect()
}

/// Enciphers like the service, built directly on the cipher crates.
fn service_oracle(plain: &[u8], key: &[u8]) -> Vec<u8> {
    let iv = [0u8, 1, 2, 3, 4, 5, 6, 7];
    let mut out = Vec::new();
    for chunk in plain.chunks(6144) {
        if chunk.len() >= 2048 {
            let enc = cbc::Encryptor::<blowfish::Blowfish>::new_from_slices(key, &iv).unwrap();
            out.extend_from_slice(&enc.encrypt_padded_vec_mut::<NoPadding>(&chunk[..2048]));
            out.extend_from_slice(&chunk[2048..]);
        } else {
            out.extend_from_slice(chunk);
        }
    }
    out
}

#[test]
fn md5_hex_known_digests() {
    assert_eq!(md5_hex(b""), "d41d8cd98f00b204e9800998ecf8427e");
    assert_eq!(md5_hex(b"abc"), "900150983cd24fb0d6963f7d28e17f72");
}

#[test]
fn aes_ecb_encrypt_standard_vector() {
    let key: Vec<u8> = (0u8..16).collect();
    let data = [
        0x00u8, 0x11, 0x22, 0x33, 0x44, 0x55, 0x66, 0x77, 0x88, 0x99, 0xaa, 0xbb, 0xcc, 0xdd, 0xee,
        0xff,
    ];
    assert_eq!(aes_ecb_encrypt(&key, &data), "69c4e0d86a7b0430d8cdb78070b4c55a");
}

#[test]
fn aes_ecb_encrypt_blocks_independently() {
    let key = b"0123456789abcdef";
    let one = aes_ecb_encrypt(key, &[0u8; 16]);
    assert_eq!(one, "0b9b15da4b44a0f5151dcfc4c01f35d5");
    let two = aes_ecb_encrypt(key, &[0u8; 32]);
    assert_eq!(two, format!("{}{}", one, one));
    assert_eq!(aes_ecb_encrypt(key, &[]), "");
}

#[test]
fn stream_key_known_vectors() {
    assert_eq!(
        generate_blowfish_key("3135556"),
        vec![108, 108, 102, 107, 57, 102, 44, 55, 101, 37, 117, 96, 60, 100, 52, 57]
    );
    assert_eq!(
        generate_blowfish_key("1"),
        vec![52, 100, 101, 110, 52, 58, 125, 58, 103, 44, 35, 106, 51, 105, 96, 97]
    );
    assert_eq!(
        generate_blowfish_key("123456789"),
        vec![109, 52, 101, 96, 97, 55, 127, 49, 50, 42, 115, 54, 57, 63, 98, 107]
    );
    assert_eq!(
        generate_blowfish_key(""),
        vec![102, 57, 108, 56, 61, 98, 42, 98, 109, 127, 32, 110, 111, 110, 102, 96]
    );
}

#[test]
fn stream_key_is_deterministic_and_sixteen_bytes() {
    let a = generate_blowfish_key("3135556");
    let b = generate_blowfish_key("3135556");
    assert_eq!(a, b);
    assert_eq!(a.len(), 16);
    assert_ne!(a, generate_blowfish_key("3135557"));
}

#[test]
fn decrypt_stream_undoes_service_encryption() {
    let key = generate_blowfish_key("3135556");
    for len in [0usize, 2047, 2048, 2049, 6144, 6145, 12288] {
        let plain = sample(len);
        let enc = service_oracle(&plain, &key);
        assert_eq!(enc.len(), len);
        if len >= 2048 {
            assert_ne!(enc, plain);
        }
        assert_eq!(decrypt_stream(&enc, &key), plain, "length {}", len);
    }
}

#[test]
fn encrypt_stream_matches_oracle_and_round_trips() {
    let key = generate_blowfish_key("42");
    for len in [0usize, 2047, 2048, 2049, 6144, 6145, 12288] {
        let plain = sample(len);
        let enc = encrypt_stream(&plain, &key);
        assert_eq!(enc, service_oracle(&plain, &key));
        assert_eq!(decrypt_stream(&enc, &key), plain);
    }
}

#[test]
fn short_super_chunk_is_unchanged() {
    let key = generate_blowfish_key("7");
    let short = sample(2047);
    assert_eq!(decrypt_stream(&short, &key), short);
    let data = sample(6144 + 100);
    let out = decrypt_stream(&data, &key);
    assert_eq!(out.len(), data.len());
    assert_eq!(&out[6144..], &data[6144..]);
    assert_ne!(&out[..2048], &data[..2048]);
    assert_eq!(&out[2048..6144], &data[2048..6144]);
}

#[test]
fn decrypt_stream_empty_input() {
    let key = generate_blowfish_key("7");
    assert_eq!(decrypt_stream(&[], &key), Vec::<u8>::new());
}

#[test]
fn exact_head_is_fully_decrypted() {
    let key = generate_blowfish_key("99");
    let plain = sample(2048);
    let enc = service_oracle(&plain, &key);
    assert_eq!(decrypt_chunk(&enc, &key), plain);
    assert_eq!(decrypt_stream(&enc, &key), plain);
}

#[test]
fn stream_key_from_known_digest() {
    assert_eq!(md5_hex(b"3135556"), "29a15fc70fb278009ab6988ce9a422e8");
    assert_eq!(
        stream_key_from_digest(b"29a15fc70fb278009ab6988ce9a422e8"),
        generate_blowfish_key("3135556")
    );
    // Equal halves cancel out, leaving the secret.
    assert_eq!(stream_key_from_digest(b"0123456789abcdef0123456789abcdef"), b"g4el58wc0zvf9na1".to_vec());
}

#[test]
fn aes_ecb_output_is_twice_input_length() {
    let key = b"jo6aey6haid2Teih";
    for blocks in 0..5usize {
        assert_eq!(aes_ecb_encrypt(key, &vec![7u8; 16 * blocks]).len(), 32 * blocks);
    }
}

#[test]
fn decrypt_stream_clear_tails_and_heads() {
    let key = generate_blowfish_key("5");
    let data = sample(6144 * 2 + 3000);
    let out = decrypt_stream(&data, &key);
    for (i, (a, b)) in out.iter().zip(data.iter()).enumerate() {
        if i % 6144 >= 2048 {
            assert_eq!(a, b, "byte {}", i);
        }
    }
    for s in [0usize, 6144, 12288] {
        assert_eq!(&out[s..s + 2048], &decrypt_chunk(&data[s..s + 2048], &key)[..]);
    }
}
