//! Legacy stream URLs: the track's fields obfuscated with MD5 and AES-ECB
//! into a download path on a CDN shard.

use vstd::prelude::*;
use crate::crypto::{aes_ecb_encrypt, ecb_encrypt, hex_lower, md5_hex, md5_of};
use crate::text::{decimal, decimal_string, digit_char};
use vstd::utf8::encode_utf8;

verus! {

/// The field separator of the legacy path, U+00A4 CURRENCY SIGN.
pub open spec fn separator() -> Seq<char> {
    seq!['\u{a4}']
}

/// The fixed AES-128 key of the legacy path (ASCII `jo6aey6haid2Teih`).
pub open spec fn legacy_key() -> Seq<u8> {
    seq![
        106u8, 111u8, 54u8, 97u8, 101u8, 121u8, 54u8, 104u8, 97u8, 105u8, 100u8, 50u8, 84u8,
        101u8, 105u8, 104u8,
    ]
}

fn legacy_key_bytes() -> (r: Vec<u8>)
    ensures
        r@ == legacy_key(),
{
    let r = vec![
        106u8, 111u8, 54u8, 97u8, 101u8, 121u8, 54u8, 104u8, 97u8, 105u8, 100u8, 50u8, 84u8,
        101u8, 105u8, 104u8,
    ];
    assert(r@ =~= legacy_key());
    r
}

/// `checksum ¤ format ¤ track_id ¤ media_version`, the format in decimal.
pub open spec fn legacy_fields(
    track_id: Seq<char>,
    checksum: Seq<char>,
    media_version: Seq<char>,
    format: u32,
) -> Seq<char> {
    checksum + separator() + decimal(format as nat) + separator() + track_id + separator()
        + media_version
}

/// The fields prefixed with their own hex MD5 digest and a separator, and
/// followed by a separator.
pub open spec fn legacy_message(
    track_id: Seq<char>,
    checksum: Seq<char>,
    media_version: Seq<char>,
    format: u32,
) -> Seq<char> {
    let raw = legacy_fields(track_id, checksum, media_version, format);
    hex_lower(md5_of(encode_utf8(raw))) + separator() + raw + separator()
}

/// `bytes` followed by `.` up to the next multiple of 16 bytes; nothing is
/// added to a length that is already a multiple of 16.
pub open spec fn pad_with_dots(bytes: Seq<u8>) -> Seq<u8> {
    if bytes.len() % 16 == 0 {
        bytes
    } else {
        bytes + Seq::new((16 - bytes.len() % 16) as nat, |i: int| 46u8)
    }
}

/// The bytes that the legacy path encrypts: the message's UTF-8 bytes, padded.
pub open spec fn legacy_plaintext(
    track_id: Seq<char>,
    checksum: Seq<char>,
    media_version: Seq<char>,
    format: u32,
) -> Seq<u8> {
    pad_with_dots(encode_utf8(legacy_message(track_id, checksum, media_version, format)))
}

/// The obfuscated legacy path: the padded message under AES-ECB with the
/// fixed key, in lowercase hex.
pub open spec fn legacy_path(
    track_id: Seq<char>,
    checksum: Seq<char>,
    media_version: Seq<char>,
    format: u32,
) -> Seq<char> {
    hex_lower(ecb_encrypt(legacy_key(), legacy_plaintext(track_id, checksum, media_version, format)))
}

/// The full legacy URL: the shard is the checksum's first character.
pub open spec fn legacy_url(
    track_id: Seq<char>,
    checksum: Seq<char>,
    media_version: Seq<char>,
    format: u32,
) -> Seq<char> {
    "https://e-cdns-proxy-"@ + checksum.take(1) + ".dzcdn.net/mobile/1/"@ + legacy_path(
        track_id,
        checksum,
        media_version,
        format,
    )
}

/// The fields of the legacy path joined by separators (see `legacy_fields`).
pub fn legacy_fields_text(sng_id: &str, md5: &str, media_version: &str, format: u32) -> (r:
    String)
    ensures
        r@ == legacy_fields(sng_id@, md5@, media_version@, format),
{
    let sep = "\u{a4}";
    proof {
        reveal_strlit("\u{a4}");
        assert(sep@ =~= separator());
    }
    let format_text = decimal_string(format as u64);
    let mut raw = md5.to_owned();
    raw.append(sep);
    raw.append(format_text.as_str());
    raw.append(sep);
    raw.append(sng_id);
    raw.append(sep);
    raw.append(media_version);
    assert(raw@ =~= legacy_fields(sng_id@, md5@, media_version@, format));
    raw
}

/// The bytes that the legacy path enciphers, from the hex digest of the
/// joined fields and the fields themselves: `digest ¤ fields ¤` in UTF-8,
/// padded with `.` to a multiple of 16 bytes.
pub fn legacy_plaintext_bytes(digest_hex: &str, fields: &str) -> (r: Vec<u8>)
    ensures
        r@ == pad_with_dots(encode_utf8(digest_hex@ + separator() + fields@ + separator())),
{
    let sep = "\u{a4}";
    proof {
        reveal_strlit("\u{a4}");
        assert(sep@ =~= separator());
    }
    let mut step2 = digest_hex.to_owned();
    step2.append(sep);
    step2.append(fields);
    step2.append(sep);
    let mut bytes = vstd::slice::slice_to_vec(step2.as_str().as_bytes());
    let ghost unpadded = bytes@;
    let rem: usize = bytes.len() % 16;
    if rem != 0 {
        let pad_len: usize = 16 - rem;
        let mut k: usize = 0;
        while k < pad_len
            invariant
                k <= pad_len,
                bytes@.len() == unpadded.len() + k,
                bytes@.subrange(0, unpadded.len() as int) == unpadded,
                forall|j: int| unpadded.len() <= j < bytes@.len() ==> bytes@[j] == 46u8,
            decreases pad_len - k,
        {
            bytes.push(46u8);
            k = k + 1;
        }
    }
    assert(bytes@ =~= pad_with_dots(unpadded));
    bytes
}

/// Builds the obfuscated legacy path of a track.
pub fn generate_stream_path(sng_id: &str, md5: &str, media_version: &str, format: u32) -> (r:
    String)
    ensures
        r@ == legacy_path(sng_id@, md5@, media_version@, format),
        r@.len() == 2 * legacy_plaintext(sng_id@, md5@, media_version@, format).len(),
        legacy_plaintext(sng_id@, md5@, media_version@, format).len() % 16 == 0,
{
    let raw = legacy_fields_text(sng_id, md5, media_version, format);
    let digest = md5_hex(raw.as_str().as_bytes());
    let bytes = legacy_plaintext_bytes(digest.as_str(), raw.as_str());
    let key = legacy_key_bytes();
    aes_ecb_encrypt(key.as_slice(), bytes.as_slice())
}

/// Builds the full legacy stream URL of a track; the checksum must not be
/// empty, since its first character picks the CDN shard.
pub fn generate_crypted_stream_url(sng_id: &str, md5: &str, media_version: &str, format: u32) -> (r:
    String)
    requires
        md5@.len() > 0,
    ensures
        r@ == legacy_url(sng_id@, md5@, media_version@, format),
{
    let url_part = generate_stream_path(sng_id, md5, media_version, format);
    let mut url = "https://e-cdns-proxy-".to_owned();
    url.append(md5.substring_char(0, 1));
    url.append(".dzcdn.net/mobile/1/");
    url.append(url_part.as_str());
    url
}

/// `raw` framed as the legacy path frames its fields: its hex MD5 digest, a
/// separator, `raw` and a separator.
pub open spec fn framed(raw: Seq<char>) -> Seq<char> {
    hex_lower(md5_of(encode_utf8(raw))) + separator() + raw + separator()
}

proof fn lemma_decimal_len(n: nat)
    ensures
        decimal(n).len() >= 1,
        n >= 10 ==> decimal(n).len() >= 2,
    decreases n,
{
    if n >= 10 {
        lemma_decimal_len(n / 10);
    }
}

proof fn lemma_digit_char_injective(a: nat, b: nat)
    requires
        a < 10,
        b < 10,
        digit_char(a) == digit_char(b),
    ensures
        a == b,
{
    assert(digit_char(a) as u32 == a + 48);
    assert(digit_char(b) as u32 == b + 48);
}

proof fn lemma_decimal_injective(n: nat, m: nat)
    requires
        decimal(n) == decimal(m),
    ensures
        n == m,
    decreases n,
{
    lemma_decimal_len(n);
    lemma_decimal_len(m);
    if n < 10 && m < 10 {
        assert(decimal(n) == seq![digit_char(n)]);
        assert(decimal(m) == seq![digit_char(m)]);
        assert(seq![digit_char(n)][0] == digit_char(n));
        assert(seq![digit_char(m)][0] == digit_char(m));
        lemma_digit_char_injective(n, m);
    } else if n >= 10 && m >= 10 {
        assert(decimal(n).last() == digit_char(n % 10));
        assert(decimal(m).last() == digit_char(m % 10));
        lemma_digit_char_injective(n % 10, m % 10);
        assert(decimal(n).drop_last() =~= decimal(n / 10));
        assert(decimal(m).drop_last() =~= decimal(m / 10));
        lemma_decimal_injective(n / 10, m / 10);
    }
}

proof fn lemma_encode_utf8_concat(s: Seq<char>, t: Seq<char>)
    ensures
        encode_utf8(s + t) == encode_utf8(s) + encode_utf8(t),
    decreases s.len(),
{
    if s.len() == 0 {
        assert(s + t =~= t);
        assert(encode_utf8(s) + encode_utf8(t) =~= encode_utf8(t));
    } else {
        assert((s + t)[0] == s[0]);
        assert((s + t).drop_first() =~= s.drop_first() + t);
        lemma_encode_utf8_concat(s.drop_first(), t);
        assert(encode_utf8(s + t) =~= encode_utf8(s) + encode_utf8(t));
    }
}

proof fn lemma_framed_last_byte(raw: Seq<char>)
    ensures
        encode_utf8(framed(raw)).len() > 0,
        encode_utf8(framed(raw)).last() == 0xA4u8,
{
    let head = hex_lower(md5_of(encode_utf8(raw))) + separator() + raw;
    assert(framed(raw) =~= head + separator());
    lemma_encode_utf8_concat(head, separator());
    assert(separator()[0] as u32 == 0xA4u32);
    assert(separator().drop_first() =~= Seq::<char>::empty());
    assert((0x80u8 | (0xA4u32 & 0x3Fu32) as u8) == 0xA4u8) by (bit_vector);
    assert(vstd::utf8::has_width_2_encoding(0xA4u32));
    assert(encode_utf8(separator()) == vstd::utf8::encode_scalar(separator()[0] as u32)
        + encode_utf8(separator().drop_first()));
    assert(encode_utf8(Seq::<char>::empty()) =~= Seq::<u8>::empty());
    assert(encode_utf8(separator()) =~= vstd::utf8::encode_scalar(0xA4u32));
    assert(vstd::utf8::encode_scalar(0xA4u32).last() == vstd::utf8::last_continuation_byte(
        0xA4u32,
    ));
    assert(encode_utf8(separator()).last() == 0xA4u8);
}

proof fn lemma_pad_shape(b: Seq<u8>)
    ensures
        pad_with_dots(b).len() >= b.len(),
        pad_with_dots(b).take(b.len() as int) == b,
        forall|j: int| b.len() <= j < pad_with_dots(b).len() ==> pad_with_dots(b)[j] == 46u8,
{
    assert(pad_with_dots(b).take(b.len() as int) =~= b);
}

proof fn lemma_pad_injective(b1: Seq<u8>, b2: Seq<u8>)
    requires
        b1.len() > 0,
        b2.len() > 0,
        b1.last() != 46u8,
        b2.last() != 46u8,
        pad_with_dots(b1) == pad_with_dots(b2),
    ensures
        b1 == b2,
{
    lemma_pad_shape(b1);
    lemma_pad_shape(b2);
    let p = pad_with_dots(b1);
    if b1.len() < b2.len() {
        assert(p[b2.len() - 1] == p.take(b2.len() as int)[b2.len() - 1]);
    } else if b2.len() < b1.len() {
        assert(p[b1.len() - 1] == p.take(b1.len() as int)[b1.len() - 1]);
    }
}

proof fn lemma_framed_injective(raw1: Seq<char>, raw2: Seq<char>)
    requires
        framed(raw1) == framed(raw2),
    ensures
        raw1 == raw2,
{
    let h1 = hex_lower(md5_of(encode_utf8(raw1)));
    let h2 = hex_lower(md5_of(encode_utf8(raw2)));
    let m = framed(raw1);
    if h1.len() < h2.len() {
        let k = h1.len() as int;
        assert(framed(raw1)[k] == '\u{a4}');
        assert(framed(raw2)[k] == h2[k]);
        let n = md5_of(encode_utf8(raw2))[k / 2];
        assert(n / 16 < 16 && n % 16 < 16);
    } else if h2.len() < h1.len() {
        let k = h2.len() as int;
        assert(framed(raw2)[k] == '\u{a4}');
        assert(framed(raw1)[k] == h1[k]);
        let n = md5_of(encode_utf8(raw1))[k / 2];
        assert(n / 16 < 16 && n % 16 < 16);
    }
    assert(raw1 =~= m.subrange((h1.len() + 1) as int, m.len() - 1));
    assert(raw2 =~= m.subrange((h2.len() + 1) as int, m.len() - 1));
}

proof fn lemma_cancel(p: Seq<char>, x: Seq<char>, y: Seq<char>, s: Seq<char>)
    requires
        p + x + s == p + y + s,
    ensures
        x == y,
{
    let w = p + x + s;
    assert((p + x + s).len() == (p + y + s).len());
    assert((p + x + s).len() == p.len() + x.len() + s.len());
    assert((p + y + s).len() == p.len() + y.len() + s.len());
    assert(x =~= w.subrange(p.len() as int, (p.len() + x.len()) as int));
    assert(y =~= w.subrange(p.len() as int, (p.len() + y.len()) as int));
}

/// The legacy path is a function of its four inputs, and changing any one of
/// them (the others kept) changes the bytes that it enciphers with AES.
pub proof fn legacy_plaintext_separates_fields(
    track_id: Seq<char>,
    checksum: Seq<char>,
    media_version: Seq<char>,
    format: u32,
    track_id2: Seq<char>,
    checksum2: Seq<char>,
    media_version2: Seq<char>,
    format2: u32,
)
    requires
        (track_id != track_id2 && checksum == checksum2 && media_version == media_version2
            && format == format2) || (track_id == track_id2 && checksum != checksum2
            && media_version == media_version2 && format == format2) || (track_id == track_id2
            && checksum == checksum2 && media_version != media_version2 && format == format2) || (
        track_id == track_id2 && checksum == checksum2 && media_version == media_version2
            && format != format2),
    ensures
        legacy_plaintext(track_id, checksum, media_version, format) != legacy_plaintext(
            track_id2,
            checksum2,
            media_version2,
            format2,
        ),
{
    let raw1 = legacy_fields(track_id, checksum, media_version, format);
    let raw2 = legacy_fields(track_id2, checksum2, media_version2, format2);
    if legacy_plaintext(track_id, checksum, media_version, format) == legacy_plaintext(
        track_id2,
        checksum2,
        media_version2,
        format2,
    ) {
        assert(legacy_message(track_id, checksum, media_version, format) == framed(raw1));
        assert(legacy_message(track_id2, checksum2, media_version2, format2) == framed(raw2));
        lemma_framed_last_byte(raw1);
        lemma_framed_last_byte(raw2);
        lemma_pad_injective(encode_utf8(framed(raw1)), encode_utf8(framed(raw2)));
        vstd::utf8::encode_utf8_decode_utf8(framed(raw1));
        vstd::utf8::encode_utf8_decode_utf8(framed(raw2));
        lemma_framed_injective(raw1, raw2);
        let sep = separator();
        let d1 = decimal(format as nat);
        let d2 = decimal(format2 as nat);
        if checksum != checksum2 {
            assert(raw1 =~= Seq::<char>::empty() + checksum + (sep + d1 + sep + track_id + sep
                + media_version));
            assert(raw2 =~= Seq::<char>::empty() + checksum2 + (sep + d1 + sep + track_id + sep
                + media_version));
            lemma_cancel(
                Seq::empty(),
                checksum,
                checksum2,
                sep + d1 + sep + track_id + sep + media_version,
            );
        } else if format != format2 {
            assert(raw1 =~= (checksum + sep) + d1 + (sep + track_id + sep + media_version));
            assert(raw2 =~= (checksum + sep) + d2 + (sep + track_id + sep + media_version));
            lemma_cancel(checksum + sep, d1, d2, sep + track_id + sep + media_version);
            lemma_decimal_injective(format as nat, format2 as nat);
        } else if track_id != track_id2 {
            assert(raw1 =~= (checksum + sep + d1 + sep) + track_id + (sep + media_version));
            assert(raw2 =~= (checksum + sep + d1 + sep) + track_id2 + (sep + media_version));
            lemma_cancel(checksum + sep + d1 + sep, track_id, track_id2, sep + media_version);
        } else {
            assert(raw1 =~= (checksum + sep + d1 + sep + track_id + sep) + media_version
                + Seq::empty());
            assert(raw2 =~= (checksum + sep + d1 + sep + track_id + sep) + media_version2
                + Seq::empty());
            lemma_cancel(
                checksum + sep + d1 + sep + track_id + sep,
                media_version,
                media_version2,
                Seq::empty(),
            );
        }
    }
}

} // verus!
