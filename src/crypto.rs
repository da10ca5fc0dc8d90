//! Digests, block-cipher adapters, stream-key derivation and the chunked
//! stream cipher.

use vstd::prelude::*;
use aes::cipher::{BlockEncrypt, KeyInit};
use cbc::cipher::block_padding::NoPadding;
use cbc::cipher::{BlockDecryptMut, BlockEncryptMut, KeyIvInit};
use md5::Digest;

verus! {

/// The 16-byte MD5 digest of `data`.
pub uninterp spec fn md5_of(data: Seq<u8>) -> Seq<u8>;

/// Lowercase hexadecimal digit for a nibble.
pub open spec fn hex_digit(n: u8) -> char {
    if n < 10 {
        (n + 48) as char
    } else {
        (n + 87) as char
    }
}

/// Lowercase hexadecimal rendering of `bytes`: two digits per byte, the high
/// nibble first, no separators.
pub open spec fn hex_lower(bytes: Seq<u8>) -> Seq<char> {
    Seq::new(
        2 * bytes.len(),
        |i: int|
            if i % 2 == 0 {
                hex_digit(bytes[i / 2] / 16)
            } else {
                hex_digit(bytes[i / 2] % 16)
            },
    )
}

/// Relies on `md5::Md5::digest` (RustCrypto md-5): the MD5 digest of the
/// input, 16 bytes long.
#[verifier::external_body]
fn md5_digest(data: &[u8]) -> (r: Vec<u8>)
    ensures
        r@ == md5_of(data@),
        r@.len() == 16,
{
    md5::Md5::digest(data).to_vec()
}

/// Relies on `hex::encode`: each byte becomes two lowercase hexadecimal
/// digits, the high nibble first.
#[verifier::external_body]
fn hex_encode(bytes: &[u8]) -> (r: String)
    ensures
        r@ == hex_lower(bytes@),
{
    hex::encode(bytes)
}

/// Lowercase hexadecimal MD5 digest of `data` (32 characters).
pub fn md5_hex(data: &[u8]) -> (r: String)
    ensures
        r@ == hex_lower(md5_of(data@)),
        r@.len() == 32,
{
    let digest = md5_digest(data);
    hex_encode(digest.as_slice())
}

/// The fixed 16-byte secret mixed into every stream key (ASCII
/// `g4el58wc0zvf9na1`).
pub open spec fn stream_secret() -> Seq<u8> {
    seq![
        103u8, 52u8, 101u8, 108u8, 53u8, 56u8, 119u8, 99u8, 48u8, 122u8, 118u8, 102u8, 57u8, 110u8, 97u8,
        49u8,
    ]
}

fn stream_secret_bytes() -> (r: Vec<u8>)
    ensures
        r@ == stream_secret(),
{
    let r = vec![
        103u8, 52u8, 101u8, 108u8, 53u8, 56u8, 119u8, 99u8, 48u8, 122u8, 118u8, 102u8, 57u8, 110u8, 97u8,
        49u8,
    ];
    assert(r@ =~= stream_secret());
    r
}

/// The stream key made from the bytes `h` of a hex digest: byte `i` is
/// `h[i] ^ h[i + 16] ^ secret[i]`.
pub open spec fn key_from_digest(h: Seq<u8>) -> Seq<u8> {
    Seq::new(16, |i: int| h[i] ^ h[i + 16] ^ stream_secret()[i])
}

/// The stream key of a track: made from the ASCII bytes of the hex MD5
/// digest of the track identifier's UTF-8 bytes.
pub open spec fn stream_key_of(track_id: Seq<char>) -> Seq<u8> {
    key_from_digest(
        vstd::utf8::encode_utf8(hex_lower(md5_of(vstd::utf8::encode_utf8(track_id)))),
    )
}

/// Folds the 32 bytes of a hex digest and the fixed secret into a 16-byte
/// stream key.
pub fn stream_key_from_digest(digest_hex: &[u8]) -> (r: Vec<u8>)
    requires
        digest_hex@.len() == 32,
    ensures
        r@ == key_from_digest(digest_hex@),
{
    let secret = stream_secret_bytes();
    let mut key: Vec<u8> = Vec::with_capacity(16);
    let mut i: usize = 0;
    while i < 16
        invariant
            i <= 16,
            digest_hex@.len() == 32,
            secret@ == stream_secret(),
            key@.len() == i,
            forall|j: int| 0 <= j < i ==> key@[j] == #[trigger] key_from_digest(digest_hex@)[j],
        decreases 16 - i,
    {
        key.push(digest_hex[i] ^ digest_hex[i + 16] ^ secret[i]);
        i = i + 1;
    }
    assert(key@ =~= key_from_digest(digest_hex@));
    key
}

/// Derives the 16-byte stream-cipher key of a track from its identifier.
pub fn generate_blowfish_key(track_id: &str) -> (r: Vec<u8>)
    ensures
        r@ == stream_key_of(track_id@),
        r@.len() == 16,
{
    let id_md5 = md5_hex(track_id.as_bytes());
    proof {
        lemma_hex_is_ascii(md5_of(vstd::utf8::encode_utf8(track_id@)));
        vstd::utf8::is_ascii_chars_encode_utf8(id_md5@);
    }
    stream_key_from_digest(id_md5.as_str().as_bytes())
}

/// AES-128 encryption of one 16-byte block under a 16-byte key.
pub uninterp spec fn aes128_block(key: Seq<u8>, block: Seq<u8>) -> Seq<u8>;

/// Relies on `aes::Aes128` (`KeyInit::new`, then `BlockEncrypt::encrypt_block`):
/// one 16-byte block encrypted under a 16-byte key.
#[verifier::external_body]
fn aes128_encrypt_block(key: &[u8], block: &[u8]) -> (r: Vec<u8>)
    requires
        key@.len() == 16,
        block@.len() == 16,
    ensures
        r@ == aes128_block(key@, block@),
        r@.len() == 16,
{
    let cipher = aes::Aes128::new(aes::cipher::generic_array::GenericArray::from_slice(key));
    let mut out = aes::cipher::generic_array::GenericArray::clone_from_slice(block);
    cipher.encrypt_block(&mut out);
    out.to_vec()
}

/// AES-128 in ECB mode: each 16-byte block of `data` encrypted on its own, in
/// order. A trailing partial block is not encrypted.
pub open spec fn ecb_encrypt(key: Seq<u8>, data: Seq<u8>) -> Seq<u8>
    decreases data.len(),
{
    if data.len() < 16 {
        Seq::empty()
    } else {
        aes128_block(key, data.take(16)) + ecb_encrypt(key, data.skip(16))
    }
}

/// Encrypts `data` with AES-128 in ECB mode, without padding, and returns the
/// ciphertext as lowercase hex.
pub fn aes_ecb_encrypt(key: &[u8], data: &[u8]) -> (r: String)
    requires
        key@.len() == 16,
        data@.len() % 16 == 0,
    ensures
        r@ == hex_lower(ecb_encrypt(key@, data@)),
        r@.len() == 2 * data@.len(),
{
    let mut result: Vec<u8> = Vec::new();
    let mut i: usize = 0;
    assert(data@.skip(0) =~= data@);
    assert(result@ + ecb_encrypt(key@, data@) =~= ecb_encrypt(key@, data@));
    while i < data.len()
        invariant
            i <= data@.len(),
            i % 16 == 0,
            data@.len() % 16 == 0,
            key@.len() == 16,
            result@.len() == i,
            result@ + ecb_encrypt(key@, data@.skip(i as int)) == ecb_encrypt(key@, data@),
        decreases data@.len() - i,
    {
        let rest = Ghost(data@.skip(i as int));
        assert(i + 16 <= data@.len());
        let block = aes128_encrypt_block(key, vstd::slice::slice_subrange(data, i, i + 16));
        proof {
            assert(rest@.take(16) =~= data@.subrange(i as int, i + 16));
            assert(rest@.skip(16) =~= data@.skip(i + 16));
        }
        let ghost prev = result@;
        result.extend_from_slice(block.as_slice());
        proof {
            assert(result@ =~= prev + block@);
            assert(result@ + ecb_encrypt(key@, data@.skip(i + 16)) =~= prev + (block@
                + ecb_encrypt(key@, data@.skip(i + 16))));
        }
        i = i + 16;
    }
    assert(data@.skip(i as int).len() == 0);
    assert(result@ =~= ecb_encrypt(key@, data@));
    hex_encode(result.as_slice())
}

/// Blowfish in CBC mode, decrypting: the plaintext of `data` under `key` with
/// initialisation vector `iv`.
pub uninterp spec fn blowfish_cbc_plain(key: Seq<u8>, iv: Seq<u8>, data: Seq<u8>) -> Seq<u8>;

/// Relies on `cbc::Decryptor<blowfish::Blowfish>` (`new_from_slices`, then
/// `decrypt_padded_vec_mut::<NoPadding>`): CBC decryption of whole 8-byte
/// blocks; Blowfish takes keys of 4 to 56 bytes, CBC an 8-byte vector.
#[verifier::external_body]
fn blowfish_cbc_decrypt(key: &[u8], iv: &[u8], data: &[u8]) -> (r: Vec<u8>)
    requires
        4 <= key@.len() <= 56,
        iv@.len() == 8,
        data@.len() % 8 == 0,
    ensures
        r@ == blowfish_cbc_plain(key@, iv@, data@),
        r@.len() == data@.len(),
{
    match cbc::Decryptor::<blowfish::Blowfish>::new_from_slices(key, iv) {
        Ok(dec) => match dec.decrypt_padded_vec_mut::<NoPadding>(data) {
            Ok(plain) => plain,
            Err(_) => Vec::new(),
        },
        Err(_) => Vec::new(),
    }
}

/// Relies on `cbc::Encryptor<blowfish::Blowfish>` (`new_from_slices`, then
/// `encrypt_padded_vec_mut::<NoPadding>`): CBC encryption of whole 8-byte
/// blocks, which CBC decryption under the same key and vector undoes.
#[verifier::external_body]
fn blowfish_cbc_encrypt(key: &[u8], iv: &[u8], data: &[u8]) -> (r: Vec<u8>)
    requires
        4 <= key@.len() <= 56,
        iv@.len() == 8,
        data@.len() % 8 == 0,
    ensures
        blowfish_cbc_plain(key@, iv@, r@) == data@,
        r@.len() == data@.len(),
{
    match cbc::Encryptor::<blowfish::Blowfish>::new_from_slices(key, iv) {
        Ok(enc) => enc.encrypt_padded_vec_mut::<NoPadding>(data),
        Err(_) => Vec::new(),
    }
}

/// The fixed CBC initialisation vector of the stream cipher: bytes 0 to 7.
pub open spec fn cbc_iv() -> Seq<u8> {
    seq![0u8, 1u8, 2u8, 3u8, 4u8, 5u8, 6u8, 7u8]
}

fn cbc_iv_bytes() -> (r: Vec<u8>)
    ensures
        r@ == cbc_iv(),
{
    let r = vec![0u8, 1u8, 2u8, 3u8, 4u8, 5u8, 6u8, 7u8];
    assert(r@ =~= cbc_iv());
    r
}

/// Length of a super-chunk of the stream.
pub const SUPER_CHUNK: usize = 6144;

/// Length of the enciphered head of a full super-chunk.
pub const CIPHER_HEAD: usize = 2048;

/// Decrypts one stream-cipher chunk: Blowfish-CBC under `blowfish_key` with
/// the fixed vector 0..7.
pub fn decrypt_chunk(chunk: &[u8], blowfish_key: &[u8]) -> (r: Vec<u8>)
    requires
        blowfish_key@.len() == 16,
        chunk@.len() % 8 == 0,
    ensures
        r@ == blowfish_cbc_plain(blowfish_key@, cbc_iv(), chunk@),
        r@.len() == chunk@.len(),
{
    let iv = cbc_iv_bytes();
    blowfish_cbc_decrypt(blowfish_key, iv.as_slice(), chunk)
}

/// One super-chunk in the clear: a chunk of at least 2048 bytes has its first
/// 2048 bytes decrypted and the rest copied; a shorter one is copied whole.
pub open spec fn plain_super_chunk(key: Seq<u8>, chunk: Seq<u8>) -> Seq<u8> {
    if chunk.len() >= CIPHER_HEAD {
        blowfish_cbc_plain(key, cbc_iv(), chunk.take(CIPHER_HEAD as int)) + chunk.skip(
            CIPHER_HEAD as int,
        )
    } else {
        chunk
    }
}

/// A whole stream in the clear: its consecutive super-chunks of 6144 bytes
/// (the last one possibly shorter), each as `plain_super_chunk` gives it.
pub open spec fn plain_stream(key: Seq<u8>, data: Seq<u8>) -> Seq<u8>
    decreases data.len(),
{
    if data.len() <= SUPER_CHUNK {
        plain_super_chunk(key, data)
    } else {
        plain_super_chunk(key, data.take(SUPER_CHUNK as int)) + plain_stream(
            key,
            data.skip(SUPER_CHUNK as int),
        )
    }
}

/// Decrypts a downloaded stream with the track's 16-byte key.
pub fn decrypt_stream(encrypted: &[u8], blowfish_key: &[u8]) -> (r: Vec<u8>)
    requires
        blowfish_key@.len() == 16,
    ensures
        r@ == plain_stream(blowfish_key@, encrypted@),
        r@.len() == encrypted@.len(),
        forall|i: int|
            0 <= i < encrypted@.len() && i % (SUPER_CHUNK as int) >= CIPHER_HEAD ==> r@[i]
                == encrypted@[i],
        forall|s: int|
            0 <= s && s % (SUPER_CHUNK as int) == 0 && s + CIPHER_HEAD <= encrypted@.len()
                ==> #[trigger] r@.subrange(s, s + CIPHER_HEAD) == blowfish_cbc_plain(
                blowfish_key@,
                cbc_iv(),
                encrypted@.subrange(s, s + CIPHER_HEAD),
            ),
        encrypted@.len() < CIPHER_HEAD ==> r@ == encrypted@,
{
    let mut output: Vec<u8> = Vec::with_capacity(encrypted.len());
    let mut offset: usize = 0;
    assert(encrypted@.skip(0) =~= encrypted@);
    assert(output@ + plain_stream(blowfish_key@, encrypted@) =~= plain_stream(
        blowfish_key@,
        encrypted@,
    ));
    while offset < encrypted.len()
        invariant
            offset <= encrypted@.len(),
            blowfish_key@.len() == 16,
            output@.len() == offset,
            output@ + plain_stream(blowfish_key@, encrypted@.skip(offset as int)) == plain_stream(
                blowfish_key@,
                encrypted@,
            ),
            offset % SUPER_CHUNK == 0 || offset == encrypted@.len(),
            forall|i: int|
                0 <= i < offset && i % (SUPER_CHUNK as int) >= CIPHER_HEAD ==> output@[i]
                    == encrypted@[i],
            forall|s: int|
                0 <= s && s % (SUPER_CHUNK as int) == 0 && s + CIPHER_HEAD <= offset
                    ==> #[trigger] output@.subrange(s, s + CIPHER_HEAD) == blowfish_cbc_plain(
                    blowfish_key@,
                    cbc_iv(),
                    encrypted@.subrange(s, s + CIPHER_HEAD),
                ),
        decreases encrypted@.len() - offset,
    {
        let remaining = encrypted.len() - offset;
        let size: usize = if remaining < SUPER_CHUNK {
            remaining
        } else {
            SUPER_CHUNK
        };
        let chunk = vstd::slice::slice_subrange(encrypted, offset, offset + size);
        let ghost rest = encrypted@.skip(offset as int);
        let ghost prev = output@;
        if size >= CIPHER_HEAD {
            let head = decrypt_chunk(vstd::slice::slice_subrange(chunk, 0, CIPHER_HEAD), blowfish_key);
            output.extend_from_slice(head.as_slice());
            output.extend_from_slice(vstd::slice::slice_subrange(chunk, CIPHER_HEAD, size));
            proof {
                assert(output@.subrange(offset as int, offset + CIPHER_HEAD) =~= head@);
                assert(chunk@.subrange(0, CIPHER_HEAD as int) =~= encrypted@.subrange(
                    offset as int,
                    offset + CIPHER_HEAD,
                ));
            }
        } else {
            output.extend_from_slice(chunk);
        }
        proof {
            assert(offset % SUPER_CHUNK == 0);
            assert forall|i: int|
                0 <= i < offset + size && i % (SUPER_CHUNK as int) >= CIPHER_HEAD implies output@[i]
                    == encrypted@[i] by {
                if i >= offset {
                    let k = i - offset;
                    assert(i % (SUPER_CHUNK as int) == k) by (nonlinear_arith)
                        requires
                            offset % 6144 == 0,
                            i == offset + k,
                            0 <= k < 6144,
                    ;
                    assert(output@[i] == chunk@[k]);
                } else {
                    assert(output@[i] == prev[i]);
                }
            }
            assert forall|t: int|
                0 <= t && t % (SUPER_CHUNK as int) == 0 && t + CIPHER_HEAD <= offset + size
                    implies #[trigger] output@.subrange(t, t + CIPHER_HEAD) == blowfish_cbc_plain(
                blowfish_key@,
                cbc_iv(),
                encrypted@.subrange(t, t + CIPHER_HEAD),
            ) by {
                if t + CIPHER_HEAD <= offset {
                    assert(output@.subrange(t, t + CIPHER_HEAD) =~= prev.subrange(
                        t,
                        t + CIPHER_HEAD,
                    ));
                } else {
                    assert(t == offset) by (nonlinear_arith)
                        requires
                            offset % 6144 == 0,
                            t % 6144 == 0,
                            t + 2048 > offset,
                            t + 2048 <= offset + size,
                            size <= 6144,
                            t >= 0,
                    ;
                }
            }
            assert(output@ =~= prev + plain_super_chunk(blowfish_key@, chunk@));
            if rest.len() <= SUPER_CHUNK {
                assert(chunk@ =~= rest);
                assert(encrypted@.skip(offset + size).len() == 0);
            } else {
                assert(chunk@ =~= rest.take(SUPER_CHUNK as int));
                assert(rest.skip(SUPER_CHUNK as int) =~= encrypted@.skip(offset + size));
            }
            assert(output@ + plain_stream(blowfish_key@, encrypted@.skip(offset + size)) =~= prev + (
            plain_super_chunk(blowfish_key@, chunk@) + plain_stream(
                blowfish_key@,
                encrypted@.skip(offset + size),
            )));
        }
        offset = offset + size;
    }
    assert(output@ =~= plain_stream(blowfish_key@, encrypted@));
    proof {
        if encrypted@.len() < CIPHER_HEAD {
            assert(plain_stream(blowfish_key@, encrypted@) == encrypted@);
        }
    }
    output
}

/// Splitting a stream after whole super-chunks splits its clear text there.
pub proof fn lemma_plain_stream_append(key: Seq<u8>, a: Seq<u8>, b: Seq<u8>)
    requires
        a.len() % (SUPER_CHUNK as nat) == 0,
    ensures
        plain_stream(key, a + b) == plain_stream(key, a) + plain_stream(key, b),
    decreases a.len(),
{
    if a.len() == 0 {
        assert(a + b =~= b);
        assert(plain_stream(key, a) =~= Seq::<u8>::empty());
        assert(plain_stream(key, a) + plain_stream(key, b) =~= plain_stream(key, b));
    } else if b.len() == 0 {
        assert(a + b =~= a);
        assert(plain_stream(key, b) =~= Seq::<u8>::empty());
        assert(plain_stream(key, a) + plain_stream(key, b) =~= plain_stream(key, a));
    } else {
        let rest = a.skip(SUPER_CHUNK as int);
        assert((a + b).take(SUPER_CHUNK as int) =~= a.take(SUPER_CHUNK as int));
        assert((a + b).skip(SUPER_CHUNK as int) =~= rest + b);
        lemma_plain_stream_append(key, rest, b);
        if a.len() == SUPER_CHUNK {
            assert(a.take(SUPER_CHUNK as int) =~= a);
            assert(rest =~= Seq::<u8>::empty());
            assert(rest + b =~= b);
            assert(plain_stream(key, rest) =~= Seq::<u8>::empty());
        } else {
            assert(plain_stream(key, a) == plain_super_chunk(key, a.take(SUPER_CHUNK as int))
                + plain_stream(key, rest));
        }
        assert(plain_stream(key, a + b) =~= plain_stream(key, a) + plain_stream(key, b));
    }
}

/// A final super-chunk shorter than the enciphered head comes out of the
/// stream cipher unchanged, whatever precedes it.
pub proof fn short_tail_passes_through(key: Seq<u8>, head: Seq<u8>, tail: Seq<u8>)
    requires
        head.len() % (SUPER_CHUNK as nat) == 0,
        tail.len() < CIPHER_HEAD,
    ensures
        plain_stream(key, head + tail) == plain_stream(key, head) + tail,
        plain_stream(key, tail) == tail,
{
    lemma_plain_stream_append(key, head, tail);
}

/// The stream key depends on the track identifier alone and is 16 bytes
/// long: equal identifiers give equal keys.
pub proof fn stream_key_is_deterministic(a: Seq<char>, b: Seq<char>)
    requires
        a == b,
    ensures
        stream_key_of(a) == stream_key_of(b),
        stream_key_of(a).len() == 16,
{
}

/// Enciphers a clear stream the way the service does: under Blowfish-CBC with
/// the fixed vector, the first 2048 bytes of each super-chunk of 6144 bytes
/// that is at least 2048 bytes long; everything else stays in the clear.
/// Deciphering the result gives the clear stream back.
pub fn encrypt_stream(plain: &[u8], blowfish_key: &[u8]) -> (r: Vec<u8>)
    requires
        blowfish_key@.len() == 16,
    ensures
        plain_stream(blowfish_key@, r@) == plain@,
        r@.len() == plain@.len(),
{
    let iv = cbc_iv_bytes();
    let mut output: Vec<u8> = Vec::with_capacity(plain.len());
    let mut offset: usize = 0;
    assert(plain_stream(blowfish_key@, output@) =~= plain@.take(0));
    while offset < plain.len()
        invariant
            offset <= plain@.len(),
            offset % SUPER_CHUNK == 0 || offset == plain@.len(),
            blowfish_key@.len() == 16,
            iv@ == cbc_iv(),
            output@.len() == offset,
            plain_stream(blowfish_key@, output@) == plain@.take(offset as int),
        decreases plain@.len() - offset,
    {
        let remaining = plain.len() - offset;
        let size: usize = if remaining < SUPER_CHUNK {
            remaining
        } else {
            SUPER_CHUNK
        };
        let chunk = vstd::slice::slice_subrange(plain, offset, offset + size);
        let ghost prev = output@;
        let mut piece: Vec<u8> = Vec::new();
        if size >= CIPHER_HEAD {
            let head = blowfish_cbc_encrypt(
                blowfish_key,
                iv.as_slice(),
                vstd::slice::slice_subrange(chunk, 0, CIPHER_HEAD),
            );
            piece.extend_from_slice(head.as_slice());
            piece.extend_from_slice(vstd::slice::slice_subrange(chunk, CIPHER_HEAD, size));
            assert(piece@.take(CIPHER_HEAD as int) =~= head@);
            assert(piece@.skip(CIPHER_HEAD as int) =~= chunk@.skip(CIPHER_HEAD as int));
            assert(plain_super_chunk(blowfish_key@, piece@) =~= chunk@);
        } else {
            piece.extend_from_slice(chunk);
            assert(piece@ =~= chunk@);
        }
        output.extend_from_slice(piece.as_slice());
        proof {
            assert(output@ =~= prev + piece@);
            lemma_plain_stream_append(blowfish_key@, prev, piece@);
            assert(plain@.take(offset + size) =~= plain@.take(offset as int) + chunk@);
        }
        offset = offset + size;
    }
    assert(plain@.take(offset as int) =~= plain@);
    output
}

proof fn lemma_hex_is_ascii(bytes: Seq<u8>)
    ensures
        vstd::utf8::is_ascii_chars(hex_lower(bytes)),
{
    assert forall|i: int| 0 <= i < hex_lower(bytes).len() implies '\0' <= #[trigger] hex_lower(
        bytes,
    )[i] <= '\u{7f}' by {
        let b = bytes[i / 2];
        assert(b / 16 < 16 && b % 16 < 16);
    }
}

} // verus!
