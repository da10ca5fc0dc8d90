//! Decisions of the download flow: which format and URL to use, what to name
//! the file, and how to turn downloaded bytes into the file's contents.

use vstd::prelude::*;
use crate::crypto::{decrypt_stream, generate_blowfish_key, plain_stream, stream_key_of};
use crate::legacy_url::{generate_crypted_stream_url, legacy_url};
use crate::models::{fallback_chain, format_code, format_extension, GwTrack, TrackFormat};
use crate::text::{chars_of, same_text, string_of, trim_of, trimmed};

verus! {

/// Why a track cannot be downloaded.
#[derive(Clone, Copy, Debug, PartialEq, Eq, Structural)]
pub enum DownloadError {
    /// The record has no identifier or its title is empty.
    InvalidTrack,
    /// The record has no origin checksum, so no legacy URL can be built.
    MissingChecksum,
}

impl DownloadError {
    pub fn message(&self) -> (r: String)
        ensures
            r@ == match self {
                DownloadError::InvalidTrack => "Invalid track data"@,
                DownloadError::MissingChecksum => "Track has no MD5, cannot generate download URL"@,
            },
    {
        match self {
            DownloadError::InvalidTrack => "Invalid track data".to_owned(),
            DownloadError::MissingChecksum => "Track has no MD5, cannot generate download URL".to_owned(),
        }
    }
}

/// The characters that file names may not hold.
pub open spec fn is_reserved_char(c: char) -> bool {
    c == '/' || c == '\\' || c == ':' || c == '*' || c == '?' || c == '"' || c == '<' || c == '>'
        || c == '|'
}

/// `s` with each reserved character replaced by `_`.
pub open spec fn replace_reserved(s: Seq<char>) -> Seq<char> {
    Seq::new(s.len(), |i: int| if is_reserved_char(s[i]) { '_' } else { s[i] })
}

/// A file name made of `name`: reserved characters replaced by `_`, then
/// surrounding white space removed.
pub open spec fn sanitized(name: Seq<char>) -> Seq<char> {
    trim_of(replace_reserved(name))
}

/// Makes `name` usable as a file name.
pub fn sanitize_filename(name: &str) -> (r: String)
    ensures
        r@ == sanitized(name@),
{
    let chars = chars_of(name);
    let mut out: Vec<char> = Vec::new();
    let mut i: usize = 0;
    while i < chars.len()
        invariant
            chars@ == name@,
            i <= chars@.len(),
            out@ == replace_reserved(chars@.take(i as int)),
        decreases chars@.len() - i,
    {
        let c = chars[i];
        if c == '/' || c == '\\' || c == ':' || c == '*' || c == '?' || c == '"' || c == '<' || c
            == '>' || c == '|' {
            out.push('_');
        } else {
            out.push(c);
        }
        i = i + 1;
        assert(out@ =~= replace_reserved(chars@.take(i as int)));
    }
    assert(chars@.take(i as int) =~= chars@);
    let replaced = string_of(&out);
    trimmed(replaced.as_str())
}

/// Whether bytes 4 to 7 of `data` read `ftyp`, the signature of an MP4
/// container.
pub open spec fn has_mp4_signature(data: Seq<u8>) -> bool {
    data.len() >= 8 && data[4] == 0x66 && data[5] == 0x74 && data[6] == 0x79 && data[7] == 0x70
}

/// The number of zero bytes at the start of `data`.
pub open spec fn leading_zero_count(data: Seq<u8>) -> nat
    decreases data.len(),
{
    if data.len() > 0 && data[0] == 0 {
        1 + leading_zero_count(data.skip(1))
    } else {
        0
    }
}

/// The file contents of decrypted bytes: the leading zero bytes removed,
/// unless the bytes are an MP4 container.
pub open spec fn strip_padding(data: Seq<u8>) -> Seq<u8> {
    if has_mp4_signature(data) {
        data
    } else {
        data.skip(leading_zero_count(data) as int)
    }
}

proof fn lemma_leading_zeros(data: Seq<u8>, k: int)
    requires
        0 <= k <= data.len(),
        forall|j: int| 0 <= j < k ==> data[j] == 0,
        k == data.len() || data[k] != 0,
    ensures
        leading_zero_count(data) == k,
    decreases k,
{
    if k > 0 {
        lemma_leading_zeros(data.skip(1), k - 1);
    }
}

/// Removes the service's zero padding from the start of decrypted bytes,
/// keeping MP4 containers whole.
pub fn strip_leading_zeros(data: &[u8]) -> (r: Vec<u8>)
    ensures
        r@ == strip_padding(data@),
{
    if data.len() >= 8 && data[4] == 0x66 && data[5] == 0x74 && data[6] == 0x79 && data[7] == 0x70 {
        return vstd::slice::slice_to_vec(data);
    }
    let mut start: usize = 0;
    while start < data.len() && data[start] == 0
        invariant
            start <= data@.len(),
            forall|j: int| 0 <= j < start ==> data@[j] == 0,
        decreases data@.len() - start,
    {
        start = start + 1;
    }
    proof {
        lemma_leading_zeros(data@, start as int);
    }
    vstd::slice::slice_to_vec(vstd::slice::slice_subrange(data, start, data.len()))
}

/// Turns the downloaded bytes of a track into the file's contents: the
/// stream decrypted with the track's key, then its zero padding removed.
pub fn decode_download(data: &[u8], track_id: &str) -> (r: Vec<u8>)
    ensures
        r@ == strip_padding(plain_stream(stream_key_of(track_id@), data@)),
{
    let key = generate_blowfish_key(track_id);
    let plain = decrypt_stream(data, key.as_slice());
    strip_leading_zeros(plain.as_slice())
}

/// The first format of `chain` in which the track has a known size.
pub open spec fn first_available(track: GwTrack, chain: Seq<TrackFormat>) -> Option<TrackFormat>
    decreases chain.len(),
{
    if chain.len() == 0 {
        None
    } else if track.size_in(chain[0]) > 0 {
        Some(chain[0])
    } else {
        first_available(track, chain.skip(1))
    }
}

/// The format of a legacy download: the first of `preferred` and its
/// fallbacks in which the track has a known size, else `preferred`.
pub open spec fn legacy_format(track: GwTrack, preferred: TrackFormat) -> TrackFormat {
    match first_available(track, fallback_chain(preferred)) {
        Some(f) => f,
        None => preferred,
    }
}

/// Picks the format of a legacy download.
pub fn legacy_format_for(track: &GwTrack, preferred: TrackFormat) -> (r: TrackFormat)
    ensures
        r == legacy_format(*track, preferred),
{
    let chain = preferred.chain();
    let mut i: usize = 0;
    assert(chain@.skip(0) =~= chain@);
    while i < chain.len()
        invariant
            chain@ == fallback_chain(preferred),
            i <= chain@.len(),
            first_available(*track, chain@.skip(i as int)) == first_available(*track, chain@),
        decreases chain@.len() - i,
    {
        let f = chain[i];
        assert(chain@.skip(i as int)[0] == f);
        if track.filesize_for_format(f) > 0 {
            return f;
        }
        assert(chain@.skip(i as int).skip(1) =~= chain@.skip(i + 1));
        i = i + 1;
    }
    preferred
}

/// Builds the legacy download URL of a track and the format it serves.
pub fn legacy_download_url(track: &GwTrack, preferred: TrackFormat) -> (r: Result<
    (String, TrackFormat),
    DownloadError,
>)
    ensures
        r is Err <==> track.checksum_text().len() == 0,
        r matches Err(e) ==> e == DownloadError::MissingChecksum,
        r matches Ok((url, f)) ==> f == legacy_format(*track, preferred) && url@ == legacy_url(
            track.id_text(),
            track.checksum_text(),
            track.media_version_text(),
            format_code(f),
        ),
{
    let md5 = track.md5();
    if md5.as_str().is_empty() {
        return Err(DownloadError::MissingChecksum);
    }
    let media_version = track.media_ver();
    let sng_id = track.id_str();
    let format = legacy_format_for(track, preferred);
    let url = generate_crypted_stream_url(
        sng_id.as_str(),
        md5.as_str(),
        media_version.as_str(),
        format.code(),
    );
    Ok((url, format))
}

/// The artist and title under which a track is saved, both sanitised.
pub fn track_names(track: &GwTrack) -> (r: Result<(String, String), DownloadError>)
    ensures
        r is Err <==> (track.id_text() == "0"@ || sanitized(track.title_text()).len() == 0),
        r matches Err(e) ==> e == DownloadError::InvalidTrack,
        r matches Ok((artist, title)) ==> artist@ == sanitized(track.artist_text()) && title@
            == sanitized(track.title_text()),
{
    let artist_raw = track.artist();
    let artist = sanitize_filename(artist_raw.as_str());
    let title_raw = track.title();
    let title = sanitize_filename(title_raw.as_str());
    let sng_id = track.id_str();
    if same_text(sng_id.as_str(), "0") || title.as_str().is_empty() {
        return Err(DownloadError::InvalidTrack);
    }
    Ok((artist, title))
}

/// `artist - title` followed by the format's extension.
pub fn track_file_name(artist: &str, title: &str, format: TrackFormat) -> (r: String)
    ensures
        r@ == artist@ + " - "@ + title@ + format_extension(format),
{
    let mut name = artist.to_owned();
    name.append(" - ");
    name.append(title);
    name.append(format.extension());
    name
}

} // verus!
