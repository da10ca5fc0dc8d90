//! Reading the user's input: quality names and catalogue references.

use vstd::prelude::*;
use crate::models::TrackFormat;
use crate::text::{
    all_digits, before_first, chars_of, contains_seq, contains_str, last_index_of, lowercase,
    lowercase_of, rfind_char, same_text, segment_until, string_of,
};

verus! {

/// The format that a lower-case quality name selects; 320 kbps MP3 for an
/// unknown name.
pub open spec fn format_for_name(name: Seq<char>) -> TrackFormat {
    if name == "flac"@ || name == "lossless"@ || name == "9"@ {
        TrackFormat::Flac
    } else if name == "320"@ || name == "mp3_320"@ || name == "3"@ {
        TrackFormat::Mp3_320
    } else if name == "128"@ || name == "mp3_128"@ || name == "1"@ {
        TrackFormat::Mp3_128
    } else {
        TrackFormat::Mp3_320
    }
}

/// The format that an already lower-cased quality name selects.
pub fn format_from_name(name: &str) -> (r: TrackFormat)
    ensures
        r == format_for_name(name@),
{
    if same_text(name, "flac") || same_text(name, "lossless") || same_text(name, "9") {
        TrackFormat::Flac
    } else if same_text(name, "320") || same_text(name, "mp3_320") || same_text(name, "3") {
        TrackFormat::Mp3_320
    } else if same_text(name, "128") || same_text(name, "mp3_128") || same_text(name, "1") {
        TrackFormat::Mp3_128
    } else {
        TrackFormat::Mp3_320
    }
}

/// The format that a quality name selects, ignoring case.
pub fn parse_format(quality: &str) -> (r: TrackFormat)
    ensures
        r == format_for_name(lowercase_of(quality@)),
{
    let lower = lowercase(quality);
    format_from_name(lower.as_str())
}

/// The identifier in a catalogue reference: for a service URL, the text after
/// its last `/` up to any `?`; any other input as it is.
pub open spec fn id_from_reference(input: Seq<char>) -> Seq<char> {
    if contains_seq(input, "deezer.com"@) {
        match last_index_of(input, '/') {
            Some(p) => before_first(input.skip(p + 1), '?'),
            None => input,
        }
    } else {
        input
    }
}

/// Extracts the identifier from a service URL, or returns the input where it
/// is already an identifier.
pub fn extract_id(input: &str, _entity: &str) -> (r: String)
    ensures
        r@ == id_from_reference(input@),
{
    if contains_str(input, "deezer.com") {
        let chars = chars_of(input);
        match rfind_char(&chars, '/') {
            Some(pos) => {
                let id = segment_until(&chars, pos + 1, '?');
                return string_of(&id);
            },
            None => {},
        }
    }
    input.to_owned()
}

/// Whether an artist query names the artist directly (a service URL, or a
/// string of digits) rather than asking for a search.
pub open spec fn is_direct_artist_reference(query: Seq<char>) -> bool {
    contains_seq(query, "deezer.com"@) || all_digits(query)
}

/// Whether an artist query is a URL or an identifier rather than a name to
/// search for.
pub fn is_artist_reference(query: &str) -> (r: bool)
    ensures
        r == is_direct_artist_reference(query@),
{
    if contains_str(query, "deezer.com") {
        return true;
    }
    let chars = chars_of(query);
    let mut i: usize = 0;
    while i < chars.len()
        invariant
            chars@ == query@,
            !contains_seq(query@, "deezer.com"@),
            i <= chars@.len(),
            forall|j: int| 0 <= j < i ==> '0' <= #[trigger] chars@[j] <= '9',
        decreases chars@.len() - i,
    {
        let c = chars[i];
        if c < '0' || c > '9' {
            assert(!('0' <= query@[i as int] <= '9'));
            return false;
        }
        i = i + 1;
    }
    true
}

} // verus!
