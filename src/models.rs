//! Records of the metadata service, the audio format model and the
//! normalised scalar fields that the records carry.

use vstd::prelude::*;
use crate::text::{decimal, parse_u64, parse_u64_spec, signed_decimal, decimal_string, signed_decimal_string};

verus! {

/// An audio encoding offered by the service, best first.
#[derive(Clone, Copy, Debug, PartialEq, Eq, Structural)]
#[allow(non_camel_case_types)]
pub enum TrackFormat {
    Flac,
    Mp3_320,
    Mp3_128,
}

/// The service's numeric code of a format.
pub open spec fn format_code(f: TrackFormat) -> u32 {
    match f {
        TrackFormat::Flac => 9,
        TrackFormat::Mp3_320 => 3,
        TrackFormat::Mp3_128 => 1,
    }
}

/// The name of a format in the media API.
pub open spec fn format_api_name(f: TrackFormat) -> Seq<char> {
    match f {
        TrackFormat::Flac => "FLAC"@,
        TrackFormat::Mp3_320 => "MP3_320"@,
        TrackFormat::Mp3_128 => "MP3_128"@,
    }
}

/// The file extension of a format, dot included.
pub open spec fn format_extension(f: TrackFormat) -> Seq<char> {
    match f {
        TrackFormat::Flac => ".flac"@,
        TrackFormat::Mp3_320 | TrackFormat::Mp3_128 => ".mp3"@,
    }
}

/// The next format to try after `f`, if any.
pub open spec fn format_fallback(f: TrackFormat) -> Option<TrackFormat> {
    match f {
        TrackFormat::Flac => Some(TrackFormat::Mp3_320),
        TrackFormat::Mp3_320 => Some(TrackFormat::Mp3_128),
        TrackFormat::Mp3_128 => None,
    }
}

/// Preference rank of a format: the number of formats after it in the chain.
pub open spec fn format_rank(f: TrackFormat) -> nat {
    match f {
        TrackFormat::Flac => 2,
        TrackFormat::Mp3_320 => 1,
        TrackFormat::Mp3_128 => 0,
    }
}

/// `f` and the formats reached from it by following the fallback, in order.
pub open spec fn fallback_chain(f: TrackFormat) -> Seq<TrackFormat>
    decreases format_rank(f),
{
    match format_fallback(f) {
        Some(g) => seq![f] + fallback_chain(g),
        None => seq![f],
    }
}

/// Following the fallback from lossless gives exactly lossless, 320 kbps MP3
/// and 128 kbps MP3, and there it ends.
pub proof fn fallback_chain_from_lossless()
    ensures
        fallback_chain(TrackFormat::Flac) == seq![
            TrackFormat::Flac,
            TrackFormat::Mp3_320,
            TrackFormat::Mp3_128,
        ],
        format_fallback(TrackFormat::Mp3_128) is None,
{
    reveal_with_fuel(fallback_chain, 4);
    assert(fallback_chain(TrackFormat::Flac) =~= seq![
        TrackFormat::Flac,
        TrackFormat::Mp3_320,
        TrackFormat::Mp3_128,
    ]);
}

/// Every fallback is a strictly less preferred format, so the chain from any
/// format is finite, starts at that format, holds each format at most once
/// and ends at the lowest quality.
pub proof fn fallback_chain_terminates(f: TrackFormat)
    ensures
        format_fallback(f) matches Some(g) ==> format_rank(g) < format_rank(f),
        fallback_chain(f).len() == format_rank(f) + 1,
        fallback_chain(f)[0] == f,
        fallback_chain(f).last() == TrackFormat::Mp3_128,
        forall|i: int, j: int|
            0 <= i < j < fallback_chain(f).len() ==> fallback_chain(f)[i] != fallback_chain(
                f,
            )[j],
{
    reveal_with_fuel(fallback_chain, 4);
    let c = fallback_chain(f);
    match f {
        TrackFormat::Flac => {
            assert(c =~= seq![TrackFormat::Flac, TrackFormat::Mp3_320, TrackFormat::Mp3_128]);
        },
        TrackFormat::Mp3_320 => {
            assert(c =~= seq![TrackFormat::Mp3_320, TrackFormat::Mp3_128]);
        },
        TrackFormat::Mp3_128 => {
            assert(c =~= seq![TrackFormat::Mp3_128]);
        },
    }
}

impl TrackFormat {
    /// The service's numeric code of this format.
    pub fn code(&self) -> (r: u32)
        ensures
            r == format_code(*self),
    {
        match self {
            TrackFormat::Flac => 9,
            TrackFormat::Mp3_320 => 3,
            TrackFormat::Mp3_128 => 1,
        }
    }

    /// The name of this format in the media API.
    pub fn api_name(&self) -> (r: &'static str)
        ensures
            r@ == format_api_name(*self),
    {
        match self {
            TrackFormat::Flac => "FLAC",
            TrackFormat::Mp3_320 => "MP3_320",
            TrackFormat::Mp3_128 => "MP3_128",
        }
    }

    /// The file extension of this format, dot included.
    pub fn extension(&self) -> (r: &'static str)
        ensures
            r@ == format_extension(*self),
    {
        match self {
            TrackFormat::Flac => ".flac",
            TrackFormat::Mp3_320 | TrackFormat::Mp3_128 => ".mp3",
        }
    }

    /// The next format to try when this one cannot be had.
    pub fn fallback(&self) -> (r: Option<TrackFormat>)
        ensures
            r == format_fallback(*self),
    {
        match self {
            TrackFormat::Flac => Some(TrackFormat::Mp3_320),
            TrackFormat::Mp3_320 => Some(TrackFormat::Mp3_128),
            TrackFormat::Mp3_128 => None,
        }
    }

    /// This format followed by every fallback after it, best first.
    pub fn chain(&self) -> (r: Vec<TrackFormat>)
        ensures
            r@ == fallback_chain(*self),
    {
        let mut r: Vec<TrackFormat> = Vec::new();
        let mut cur: Option<TrackFormat> = Some(*self);
        assert(fallback_chain(*self) =~= r@ + fallback_chain(*self));
        while cur.is_some()
            invariant
                cur matches Some(c) ==> r@ + fallback_chain(c) == fallback_chain(*self),
                cur is None ==> r@ == fallback_chain(*self),
            decreases
                match cur {
                    Some(c) => format_rank(c) + 1,
                    None => 0,
                },
        {
            let c = cur.unwrap();
            let ghost prev = r@;
            r.push(c);
            cur = c.fallback();
            proof {
                match cur {
                    Some(g) => {
                        assert(r@ + fallback_chain(g) =~= prev + fallback_chain(c));
                    },
                    None => {
                        assert(r@ =~= prev + fallback_chain(c));
                    },
                }
            }
        }
        r
    }
}

/// A scalar field of a metadata record, which the service sends either as a
/// JSON number or as a string.
#[derive(Clone, Debug)]
pub enum FieldValue {
    /// A non-negative integer.
    Unsigned(u64),
    /// A signed integer.
    Signed(i64),
    /// Any other number, by its decimal text.
    Real(String),
    /// A string.
    Text(String),
    /// `null`, a boolean, an array or an object.
    Other,
}

/// The text of a field: numbers in decimal, strings as they are; none for
/// any other value.
pub open spec fn field_text(v: FieldValue) -> Option<Seq<char>> {
    match v {
        FieldValue::Unsigned(n) => Some(decimal(n as nat)),
        FieldValue::Signed(n) => Some(signed_decimal(n as int)),
        FieldValue::Real(t) => Some(t@),
        FieldValue::Text(t) => Some(t@),
        FieldValue::Other => None,
    }
}

/// The text of an optional field, or `default` where it is absent or has no
/// text.
pub open spec fn text_or(v: Option<FieldValue>, default: Seq<char>) -> Seq<char> {
    match v {
        Some(f) => match field_text(f) {
            Some(t) => t,
            None => default,
        },
        None => default,
    }
}

/// A field read as a count: an integer that fits `u64`, or a string that
/// parses as one; 0 otherwise.
pub open spec fn field_count(v: Option<FieldValue>) -> u64 {
    match v {
        Some(FieldValue::Unsigned(n)) => n,
        Some(FieldValue::Signed(n)) => if n >= 0 {
            n as u64
        } else {
            0
        },
        Some(FieldValue::Text(t)) => match parse_u64_spec(t@) {
            Some(n) => n,
            None => 0,
        },
        _ => 0,
    }
}

impl FieldValue {
    /// This field read as a count (see `field_count`).
    pub fn count(&self) -> (r: u64)
        ensures
            r == field_count(Some(*self)),
    {
        match self {
            FieldValue::Unsigned(n) => *n,
            FieldValue::Signed(n) => if *n >= 0 {
                *n as u64
            } else {
                0
            },
            FieldValue::Text(t) => match parse_u64(t.as_str()) {
                Some(n) => n,
                None => 0,
            },
            _ => 0,
        }
    }

    /// The text of this field (see `field_text`).
    pub fn text(&self) -> (r: Option<String>)
        ensures
            r matches Some(t) ==> field_text(*self) == Some(t@),
            r is None ==> field_text(*self) is None,
    {
        match self {
            FieldValue::Unsigned(n) => Some(decimal_string(*n)),
            FieldValue::Signed(n) => Some(signed_decimal_string(*n)),
            FieldValue::Real(t) => Some(t.clone()),
            FieldValue::Text(t) => Some(t.clone()),
            FieldValue::Other => None,
        }
    }
}

/// The text of an optional field, or `default`.
pub fn field_text_or(v: &Option<FieldValue>, default: &str) -> (r: String)
    ensures
        r@ == text_or(*v, default@),
{
    match v {
        Some(f) => match f.text() {
            Some(t) => t,
            None => default.to_owned(),
        },
        None => default.to_owned(),
    }
}

/// An optional field read as a count (see `field_count`).
pub fn field_count_of(v: &Option<FieldValue>) -> (r: u64)
    ensures
        r == field_count(*v),
{
    match v {
        Some(f) => f.count(),
        None => 0,
    }
}

/// The account data returned at login.
#[derive(Clone, Debug)]
pub struct UserData {
    pub user: UserInfo,
    pub check_form: Option<String>,
    pub check_form_login: Option<String>,
}

/// The user part of the account data.
#[derive(Clone, Debug)]
pub struct UserInfo {
    pub user_id: FieldValue,
    pub blog_name: Option<String>,
    pub user_picture: Option<String>,
    pub options: Option<UserOptions>,
    pub loved_tracks_id: Option<FieldValue>,
}

/// The account's streaming options.
#[derive(Clone, Debug)]
pub struct UserOptions {
    pub license_token: Option<String>,
    pub web_hq: Option<bool>,
    pub mobile_hq: Option<bool>,
    pub web_lossless: Option<bool>,
    pub mobile_lossless: Option<bool>,
    pub license_country: Option<String>,
}

/// The logged-in user of a session.
#[derive(Clone, Debug)]
pub struct CurrentUser {
    pub id: u64,
    pub name: String,
    pub license_token: String,
    pub can_stream_hq: bool,
    pub can_stream_lossless: bool,
    pub country: String,
    pub loved_tracks_id: u64,
}

/// A track record of the metadata service.
#[derive(Clone, Debug)]
pub struct GwTrack {
    pub sng_id: FieldValue,
    pub sng_title: Option<String>,
    pub duration: Option<FieldValue>,
    pub md5_origin: Option<String>,
    pub media_version: Option<FieldValue>,
    pub art_name: Option<String>,
    pub art_id: Option<FieldValue>,
    pub alb_title: Option<String>,
    pub alb_picture: Option<String>,
    pub alb_id: Option<FieldValue>,
    pub track_number: Option<FieldValue>,
    pub disk_number: Option<FieldValue>,
    pub track_token: Option<String>,
    pub track_token_expire: Option<FieldValue>,
    pub isrc: Option<String>,
    pub filesize_mp3_128: Option<FieldValue>,
    pub filesize_mp3_320: Option<FieldValue>,
    pub filesize_flac: Option<FieldValue>,
    pub filesize_mp3_misc: Option<FieldValue>,
    pub explicit_lyrics: Option<FieldValue>,
    pub gain: Option<FieldValue>,
    pub version: Option<String>,
    pub position: Option<FieldValue>,
}

/// The string in an optional field, or `default`.
pub open spec fn string_or(v: Option<String>, default: Seq<char>) -> Seq<char> {
    match v {
        Some(s) => s@,
        None => default,
    }
}

fn string_or_default(v: &Option<String>, default: &str) -> (r: String)
    ensures
        r@ == string_or(*v, default@),
{
    match v {
        Some(s) => s.clone(),
        None => default.to_owned(),
    }
}

impl GwTrack {
    /// The track's size in `format`, by its size field (0 when unknown).
    pub open spec fn size_in(&self, format: TrackFormat) -> u64 {
        match format {
            TrackFormat::Flac => field_count(self.filesize_flac),
            TrackFormat::Mp3_320 => field_count(self.filesize_mp3_320),
            TrackFormat::Mp3_128 => field_count(self.filesize_mp3_128),
        }
    }

    /// The identifier's text, `"0"` when it has none.
    pub open spec fn id_text(&self) -> Seq<char> {
        text_or(Some(self.sng_id), "0"@)
    }

    pub open spec fn artist_text(&self) -> Seq<char> {
        string_or(self.art_name, "Unknown"@)
    }

    pub open spec fn title_text(&self) -> Seq<char> {
        string_or(self.sng_title, ""@)
    }

    pub open spec fn checksum_text(&self) -> Seq<char> {
        string_or(self.md5_origin, ""@)
    }

    pub open spec fn media_version_text(&self) -> Seq<char> {
        text_or(self.media_version, "1"@)
    }

    /// The track identifier as text, `"0"` when it has none.
    pub fn id_str(&self) -> (r: String)
        ensures
            r@ == self.id_text(),
    {
        match self.sng_id.text() {
            Some(t) => t,
            None => "0".to_owned(),
        }
    }

    /// The title, empty when absent.
    pub fn title(&self) -> (r: String)
        ensures
            r@ == self.title_text(),
    {
        string_or_default(&self.sng_title, "")
    }

    /// The artist name, `Unknown` when absent.
    pub fn artist(&self) -> (r: String)
        ensures
            r@ == self.artist_text(),
    {
        string_or_default(&self.art_name, "Unknown")
    }

    /// The album title, empty when absent.
    pub fn album(&self) -> (r: String)
        ensures
            r@ == string_or(self.alb_title, ""@),
    {
        string_or_default(&self.alb_title, "")
    }

    /// The origin checksum, empty when absent.
    pub fn md5(&self) -> (r: String)
        ensures
            r@ == self.checksum_text(),
    {
        string_or_default(&self.md5_origin, "")
    }

    /// The media version as text, `"1"` when absent.
    pub fn media_ver(&self) -> (r: String)
        ensures
            r@ == self.media_version_text(),
    {
        field_text_or(&self.media_version, "1")
    }

    /// `artist - title`.
    pub fn display_name(&self) -> (r: String)
        ensures
            r@ == self.artist_text() + " - "@ + self.title_text(),
    {
        let mut r = self.artist();
        r.append(" - ");
        let title = self.title();
        r.append(title.as_str());
        r
    }

    /// The track's size in `format`, 0 when unknown.
    pub fn filesize_for_format(&self, format: TrackFormat) -> (r: u64)
        ensures
            r == self.size_in(format),
    {
        match format {
            TrackFormat::Flac => field_count_of(&self.filesize_flac),
            TrackFormat::Mp3_320 => field_count_of(&self.filesize_mp3_320),
            TrackFormat::Mp3_128 => field_count_of(&self.filesize_mp3_128),
        }
    }
}

/// A playlist record of the metadata service.
#[derive(Clone, Debug)]
pub struct PlaylistInfo {
    pub playlist_id: Option<FieldValue>,
    pub title: Option<String>,
    pub nb_song: Option<FieldValue>,
    pub parent_username: Option<String>,
    pub playlist_picture: Option<String>,
}

impl PlaylistInfo {
    /// The playlist identifier as text, `"0"` when absent.
    pub fn id_str(&self) -> (r: String)
        ensures
            r@ == text_or(self.playlist_id, "0"@),
    {
        field_text_or(&self.playlist_id, "0")
    }

    /// The playlist title, `Unknown Playlist` when absent.
    pub fn display_name(&self) -> (r: String)
        ensures
            r@ == string_or(self.title, "Unknown Playlist"@),
    {
        string_or_default(&self.title, "Unknown Playlist")
    }
}

/// An album record of an artist's discography.
#[derive(Clone, Debug)]
pub struct AlbumInfo {
    pub alb_id: Option<FieldValue>,
    pub alb_title: Option<String>,
    pub art_name: Option<String>,
    pub nb_tracks: Option<FieldValue>,
    pub is_official: Option<bool>,
    pub album_type: Option<FieldValue>,
}

impl AlbumInfo {
    /// The album identifier as text, `"0"` when absent.
    pub fn id_str(&self) -> (r: String)
        ensures
            r@ == text_or(self.alb_id, "0"@),
    {
        field_text_or(&self.alb_id, "0")
    }
}

/// The media API's answer to a URL request.
#[derive(Clone, Debug)]
pub struct MediaResponse {
    pub data: Vec<MediaData>,
}

/// One entry of the media API's answer.
#[derive(Clone, Debug)]
pub struct MediaData {
    pub media: Option<Vec<MediaInfo>>,
    pub errors: Option<Vec<MediaError>>,
}

#[derive(Clone, Debug)]
pub struct MediaInfo {
    pub sources: Vec<MediaSource>,
}

#[derive(Clone, Debug)]
pub struct MediaSource {
    pub url: String,
}

#[derive(Clone, Debug)]
pub struct MediaError {
    pub code: i64,
    pub message: Option<String>,
}

} // verus!
