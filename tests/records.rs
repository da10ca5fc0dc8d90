use deezer_dl::models::{AlbumInfo, FieldValue, GwTrack, PlaylistInfo, TrackFormat};
use deezer_dl::text::parse_u64;

pub fn track(id: FieldValue) -> GwTrack {
    GwTrack {
        sng_id: id,
        sng_title: None,
        duration: None,
        md5_origin: None,
        media_version: None,
        art_name: None,
        art_id: None,
        alb_title: None,
        alb_picture: None,
        alb_id: None,
        track_number: None,
        disk_number: None,
        track_token: None,
        track_token_expire: None,
        isrc: None,
        filesize_mp3_128: None,
        filesize_mp3_320: None,
        filesize_flac: None,
        filesize_mp3_misc: None,
        explicit_lyrics: None,
        gain: None,
        version: None,
        position: None,
    }
}

#[test]
fn id_str_of_each_kind_of_value() {
    assert_eq!(track(FieldValue::Unsigned(3135556)).id_str(), "3135556");
    assert_eq!(track(FieldValue::Unsigned(0)).id_str(), "0");
    assert_eq!(track(FieldValue::Signed(-42)).id_str(), "-42");
    assert_eq!(track(FieldValue::Signed(i64::MIN)).id_str(), "-9223372036854775808");
    assert_eq!(track(FieldValue::Real("1.5".to_string())).id_str(), "1.5");
    assert_eq!(track(FieldValue::Text("abc".to_string())).id_str(), "abc");
    assert_eq!(track(FieldValue::Other).id_str(), "0");
    assert_eq!(track(FieldValue::Unsigned(u64::MAX)).id_str(), "18446744073709551615");
}

#[test]
fn getters_and_defaults() {
    let mut t = track(FieldValue::Unsigned(1));
    assert_eq!(t.title(), "");
    assert_eq!(t.artist(), "Unknown");
    assert_eq!(t.album(), "");
    assert_eq!(t.md5(), "");
    assert_eq!(t.media_ver(), "1");
    assert_eq!(t.display_name(), "Unknown - ");
    t.sng_title = Some("Song".to_string());
    t.art_name = Some("Band".to_string());
    t.alb_title = Some("Record".to_string());
    t.md5_origin = Some("abc".to_string());
    t.media_version = Some(FieldValue::Unsigned(4));
    assert_eq!(t.display_name(), "Band - Song");
    assert_eq!(t.album(), "Record");
    assert_eq!(t.md5(), "abc");
    assert_eq!(t.media_ver(), "4");
    t.media_version = Some(FieldValue::Text("7".to_string()));
    assert_eq!(t.media_ver(), "7");
    t.media_version = Some(FieldValue::Other);
    assert_eq!(t.media_ver(), "1");
}

#[test]
fn filesize_for_each_format() {
    let mut t = track(FieldValue::Unsigned(1));
    t.filesize_flac = Some(FieldValue::Text("12345".to_string()));
    t.filesize_mp3_320 = Some(FieldValue::Unsigned(99));
    t.filesize_mp3_128 = Some(FieldValue::Text("abc".to_string()));
    assert_eq!(t.filesize_for_format(TrackFormat::Flac), 12345);
    assert_eq!(t.filesize_for_format(TrackFormat::Mp3_320), 99);
    assert_eq!(t.filesize_for_format(TrackFormat::Mp3_128), 0);
    t.filesize_mp3_128 = Some(FieldValue::Signed(-3));
    assert_eq!(t.filesize_for_format(TrackFormat::Mp3_128), 0);
    t.filesize_mp3_128 = Some(FieldValue::Real("2.5".to_string()));
    assert_eq!(t.filesize_for_format(TrackFormat::Mp3_128), 0);
    t.filesize_mp3_128 = None;
    assert_eq!(t.filesize_for_format(TrackFormat::Mp3_128), 0);
}

#[test]
fn parse_u64_follows_std() {
    for s in ["0", "42", "+42", "", "+", "-1", "12a", "18446744073709551615", "18446744073709551616", "007", " 1"] {
        assert_eq!(parse_u64(s), s.parse::<u64>().ok(), "input {:?}", s);
    }
}

#[test]
fn playlist_and_album_ids() {
    let p = PlaylistInfo {
        playlist_id: Some(FieldValue::Unsigned(908622995)),
        title: None,
        nb_song: None,
        parent_username: None,
        playlist_picture: None,
    };
    assert_eq!(p.id_str(), "908622995");
    assert_eq!(p.display_name(), "Unknown Playlist");
    let p2 = PlaylistInfo { playlist_id: None, title: Some("Mix".to_string()), ..p };
    assert_eq!(p2.id_str(), "0");
    assert_eq!(p2.display_name(), "Mix");
    let a = AlbumInfo {
        alb_id: Some(FieldValue::Text("302127".to_string())),
        alb_title: None,
        art_name: None,
        nb_tracks: None,
        is_official: None,
        album_type: None,
    };
    assert_eq!(a.id_str(), "302127");
    let a2 = AlbumInfo { alb_id: None, ..a };
    assert_eq!(a2.id_str(), "0");
}
