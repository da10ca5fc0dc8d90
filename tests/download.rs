use deezer_dl::crypto::{decrypt_stream, encrypt_stream, generate_blowfish_key};
use deezer_dl::download::{
    decode_download, legacy_download_url, legacy_format_for, sanitize_filename,
    strip_leading_zeros, track_file_name, track_names, DownloadError,
};
use deezer_dl::legacy_url::generate_crypted_stream_url;
use deezer_dl::models::{FieldValue, GwTrack, TrackFormat};

fn blank_track() -> GwTrack {
    GwTrack {
        sng_id: FieldValue::Unsigned(3135556),
        sng_title: Some("Song".to_string()),
        duration: None,
        md5_origin: Some("abc123def456abc123def456abc123de".to_string()),
        media_version: Some(FieldValue::Text("1".to_string())),
        art_name: Some("Band".to_string()),
        art_id: None,
        alb_title: None,
        alb_picture: None,
        alb_id: None,
        track_number: None,
        disk_number: None,
        track_token: None,
        track_token_expire: None,
        isrc: None,
        filesize_mp3_128: None,
        filesize_mp3_320: None,
        filesize_flac: None,
        filesize_mp3_misc: None,
        explicit_lyrics: None,
        gain: None,
        version: None,
        position: None,
    }
}

#[test]
fn strip_keeps_mp4_container() {
    let data = vec![0u8, 0, 0, 0, 0x66, 0x74, 0x79, 0x70, 1, 2, 3];
    assert_eq!(strip_leading_zeros(&data), data);
    let exact = vec![0u8, 0, 0, 0, 0x66, 0x74, 0x79, 0x70];
    assert_eq!(strip_leading_zeros(&exact), exact);
}

#[test]
fn strip_removes_leading_zeros() {
    assert_eq!(strip_leading_zeros(&[0, 0, 1, 2, 3]), vec![1, 2, 3]);
    assert_eq!(strip_leading_zeros(&[5, 0, 1]), vec![5, 0, 1]);
    assert_eq!(strip_leading_zeros(&[]), Vec::<u8>::new());
    assert_eq!(strip_leading_zeros(&[0, 0, 0]), Vec::<u8>::new());
    assert_eq!(strip_leading_zeros(&[0, 1, 0, 0, 0x66, 0x74, 0x79, 0x71]), vec![1, 0, 0, 0x66, 0x74, 0x79, 0x71]);
}

#[test]
fn sanitize_replaces_reserved_and_trims() {
    assert_eq!(sanitize_filename("  AC/DC: Live?  "), "AC_DC_ Live_");
    assert_eq!(sanitize_filename("a\\b*c\"d<e>f|g"), "a_b_c_d_e_f_g");
    assert_eq!(sanitize_filename("plain"), "plain");
    assert_eq!(sanitize_filename("   "), "");
}

#[test]
fn decode_download_decrypts_and_strips() {
    let mut plain = vec![0u8; 10];
    plain.extend((0..3000u32).map(|i| (i % 200 + 1) as u8));
    let key = generate_blowfish_key("3135556");
    let enc = encrypt_stream(&plain, &key);
    assert_eq!(decrypt_stream(&enc, &key), plain);
    assert_eq!(decode_download(&enc, "3135556"), plain[10..].to_vec());
}

#[test]
fn legacy_format_prefers_first_known_size() {
    let mut t = blank_track();
    assert_eq!(legacy_format_for(&t, TrackFormat::Flac), TrackFormat::Flac);
    t.filesize_mp3_128 = Some(FieldValue::Unsigned(10));
    assert_eq!(legacy_format_for(&t, TrackFormat::Flac), TrackFormat::Mp3_128);
    t.filesize_mp3_320 = Some(FieldValue::Text("20".to_string()));
    assert_eq!(legacy_format_for(&t, TrackFormat::Flac), TrackFormat::Mp3_320);
    assert_eq!(legacy_format_for(&t, TrackFormat::Mp3_128), TrackFormat::Mp3_128);
}

#[test]
fn legacy_download_url_builds_url() {
    let mut t = blank_track();
    t.filesize_mp3_320 = Some(FieldValue::Unsigned(5));
    let (url, f) = legacy_download_url(&t, TrackFormat::Flac).unwrap();
    assert_eq!(f, TrackFormat::Mp3_320);
    assert_eq!(url, generate_crypted_stream_url("3135556", "abc123def456abc123def456abc123de", "1", 3));
}

#[test]
fn legacy_download_url_needs_checksum() {
    let mut t = blank_track();
    t.md5_origin = None;
    assert_eq!(legacy_download_url(&t, TrackFormat::Flac).unwrap_err(), DownloadError::MissingChecksum);
    assert_eq!(
        DownloadError::MissingChecksum.message(),
        "Track has no MD5, cannot generate download URL"
    );
}

#[test]
fn track_names_validate_record() {
    let t = blank_track();
    assert_eq!(track_names(&t).unwrap(), ("Band".to_string(), "Song".to_string()));
    let mut untitled = blank_track();
    untitled.sng_title = Some(" ".to_string());
    assert_eq!(track_names(&untitled).unwrap_err(), DownloadError::InvalidTrack);
    let mut nameless = blank_track();
    nameless.sng_id = FieldValue::Other;
    assert_eq!(track_names(&nameless).unwrap_err(), DownloadError::InvalidTrack);
    assert_eq!(DownloadError::InvalidTrack.message(), "Invalid track data");
    assert_eq!(track_file_name("Band", "Song", TrackFormat::Flac), "Band - Song.flac");
    assert_eq!(track_file_name("Band", "Song", TrackFormat::Mp3_128), "Band - Song.mp3");
}
