//! Decisions of a session with the metadata service: who is logged in,
//! when to renew the API token, how far to page, which media URL to use.

use vstd::prelude::*;
use crate::models::{
    field_count, field_count_of, string_or, CurrentUser, FieldValue, MediaData, MediaResponse,
    UserData, UserOptions,
};
use crate::text::{contains_seq, contains_str, parse_i64, parse_i64_spec, same_text};

verus! {

/// Whether a user identifier denotes nobody: the number 0, the string `"0"`,
/// or a value that is neither a number nor a string.
pub open spec fn is_anonymous_id(v: FieldValue) -> bool {
    match v {
        FieldValue::Unsigned(n) => n == 0,
        FieldValue::Signed(n) => n == 0,
        FieldValue::Real(_) => false,
        FieldValue::Text(t) => t@ == "0"@,
        FieldValue::Other => true,
    }
}

/// An optional flag, false where absent.
pub open spec fn flag(v: Option<bool>) -> bool {
    match v {
        Some(b) => b,
        None => false,
    }
}

/// Whether `u` holds the fields of the user in `data`; the options count as
/// empty where absent.
pub open spec fn user_fields_match(u: CurrentUser, data: UserData) -> bool {
    let o = match data.user.options {
        Some(o) => o,
        None => empty_options(),
    };
    &&& u.id == field_count(Some(data.user.user_id))
    &&& u.name@ == string_or(data.user.blog_name, "Unknown"@)
    &&& u.license_token@ == string_or(o.license_token, ""@)
    &&& u.can_stream_hq == (flag(o.web_hq) || flag(o.mobile_hq))
    &&& u.can_stream_lossless == (flag(o.web_lossless) || flag(o.mobile_lossless))
    &&& u.country@ == string_or(o.license_country, ""@)
    &&& u.loved_tracks_id == field_count(data.user.loved_tracks_id)
}

/// Streaming options with every field absent.
pub open spec fn empty_options() -> UserOptions {
    UserOptions {
        license_token: None,
        web_hq: None,
        mobile_hq: None,
        web_lossless: None,
        mobile_lossless: None,
        license_country: None,
    }
}

fn string_or_empty(v: &Option<String>, default: &str) -> (r: String)
    ensures
        r@ == string_or(*v, default@),
{
    match v {
        Some(s) => s.clone(),
        None => default.to_owned(),
    }
}

fn flag_of(v: Option<bool>) -> (r: bool)
    ensures
        r == flag(v),
{
    match v {
        Some(b) => b,
        None => false,
    }
}

impl CurrentUser {
    /// The logged-in user that login data describes; none where its user
    /// identifier denotes nobody, which means the login failed.
    pub fn from_user_data(data: &UserData) -> (r: Option<CurrentUser>)
        ensures
            r is None <==> is_anonymous_id(data.user.user_id),
            r matches Some(u) ==> user_fields_match(u, *data),
    {
        let anonymous = match &data.user.user_id {
            FieldValue::Unsigned(n) => *n == 0,
            FieldValue::Signed(n) => *n == 0,
            FieldValue::Real(_) => false,
            FieldValue::Text(t) => same_text(t.as_str(), "0"),
            FieldValue::Other => true,
        };
        if anonymous {
            return None;
        }
        let id = data.user.user_id.count();
        let (license_token, hq, lossless, country) = match &data.user.options {
            Some(o) => (
                string_or_empty(&o.license_token, ""),
                flag_of(o.web_hq) || flag_of(o.mobile_hq),
                flag_of(o.web_lossless) || flag_of(o.mobile_lossless),
                string_or_empty(&o.license_country, ""),
            ),
            None => ("".to_owned(), false, false, "".to_owned()),
        };
        Some(
            CurrentUser {
                id,
                name: string_or_empty(&data.user.blog_name, "Unknown"),
                license_token,
                can_stream_hq: hq,
                can_stream_lossless: lossless,
                country,
                loved_tracks_id: field_count_of(&data.user.loved_tracks_id),
            },
        )
    }
}

/// Whether an error text of the service says that the API token has gone
/// stale.
pub open spec fn is_stale_token_error(error_text: Seq<char>) -> bool {
    contains_seq(error_text, "invalid api token"@) || contains_seq(error_text, "Invalid CSRF token"@)
}

/// Whether a call that failed with `error_text` is to be repeated once with
/// a fresh token: only for a stale token, and only if it was not yet retried.
pub fn should_renew_token(error_text: &str, retried: bool) -> (r: bool)
    ensures
        r == (!retried && is_stale_token_error(error_text@)),
{
    if retried {
        return false;
    }
    contains_str(error_text, "invalid api token") || contains_str(error_text, "Invalid CSRF token")
}

/// Where the next page of a listing starts, if there is one: one page further
/// on, unless that is past the total, the last page came back empty, or the
/// offset would not fit in 64 bits.
pub open spec fn next_page(start: u64, limit: u64, total: u64, count: u64) -> Option<u64> {
    if start + limit > u64::MAX || start + limit >= total || count == 0 {
        None
    } else {
        Some((start + limit) as u64)
    }
}

/// Decides whether to fetch another page of a paged listing.
pub fn next_page_start(start: u64, limit: u64, total: u64, count: u64) -> (r: Option<u64>)
    ensures
        r == next_page(start, limit, total, count),
{
    if start > u64::MAX - limit {
        return None;
    }
    let next = start + limit;
    if next >= total || count == 0 {
        None
    } else {
        Some(next)
    }
}

/// The URL that one entry of a media answer offers: the first source of its
/// first medium, for an entry without errors.
pub open spec fn entry_url(d: MediaData) -> Option<Seq<char>> {
    if d.errors is Some {
        None
    } else {
        match d.media {
            Some(media) => if media.len() > 0 && media[0].sources.len() > 0 {
                Some(media[0].sources[0].url@)
            } else {
                None
            },
            None => None,
        }
    }
}

/// The first URL that the entries of a media answer offer, in order.
pub open spec fn first_entry_url(entries: Seq<MediaData>) -> Option<Seq<char>>
    decreases entries.len(),
{
    if entries.len() == 0 {
        None
    } else {
        match entry_url(entries[0]) {
            Some(u) => Some(u),
            None => first_entry_url(entries.skip(1)),
        }
    }
}

fn url_of_entry(d: &MediaData) -> (r: Option<String>)
    ensures
        r matches Some(u) ==> entry_url(*d) == Some(u@),
        r is None ==> entry_url(*d) is None,
{
    if d.errors.is_some() {
        return None;
    }
    match &d.media {
        Some(media) => {
            if media.len() > 0 && media[0].sources.len() > 0 {
                Some(media[0].sources[0].url.clone())
            } else {
                None
            }
        },
        None => None,
    }
}

impl MediaResponse {
    /// The download URL that this answer offers, if any.
    pub fn stream_url(&self) -> (r: Option<String>)
        ensures
            r matches Some(u) ==> first_entry_url(self.data@) == Some(u@),
            r is None ==> first_entry_url(self.data@) is None,
    {
        let mut i: usize = 0;
        assert(self.data@.skip(0) =~= self.data@);
        while i < self.data.len()
            invariant
                i <= self.data@.len(),
                first_entry_url(self.data@.skip(i as int)) == first_entry_url(self.data@),
            decreases self.data@.len() - i,
        {
            assert(self.data@.skip(i as int)[0] == self.data@[i as int]);
            match url_of_entry(&self.data[i]) {
                Some(u) => {
                    return Some(u);
                },
                None => {},
            }
            assert(self.data@.skip(i as int).skip(1) =~= self.data@.skip(i + 1));
            i = i + 1;
        }
        None
    }
}

/// The value under which a track identifier is sent in a batch request.
pub fn request_id(id: &str) -> (r: FieldValue)
    ensures
        parse_i64_spec(id@) matches Some(n) ==> r == FieldValue::Signed(n),
        parse_i64_spec(id@) is None ==> (r matches FieldValue::Text(t) && t@ == id@),
{
    match parse_i64(id) {
        Some(n) => FieldValue::Signed(n),
        None => FieldValue::Text(id.to_owned()),
    }
}

} // verus!
