use deezer_dl::cli::{extract_id, format_from_name, is_artist_reference, parse_format};
use deezer_dl::models::TrackFormat;

#[test]
fn parse_format_names() {
    assert_eq!(parse_format("flac"), TrackFormat::Flac);
    assert_eq!(parse_format("FLAC"), TrackFormat::Flac);
    assert_eq!(parse_format("Lossless"), TrackFormat::Flac);
    assert_eq!(parse_format("9"), TrackFormat::Flac);
    assert_eq!(parse_format("320"), TrackFormat::Mp3_320);
    assert_eq!(parse_format("MP3_320"), TrackFormat::Mp3_320);
    assert_eq!(parse_format("3"), TrackFormat::Mp3_320);
    assert_eq!(parse_format("128"), TrackFormat::Mp3_128);
    assert_eq!(parse_format("mp3_128"), TrackFormat::Mp3_128);
    assert_eq!(parse_format("1"), TrackFormat::Mp3_128);
    assert_eq!(parse_format("best"), TrackFormat::Mp3_320);
    assert_eq!(format_from_name("FLAC"), TrackFormat::Mp3_320);
}

#[test]
fn extract_id_from_urls() {
    assert_eq!(extract_id("https://www.deezer.com/en/track/12345", "track"), "12345");
    assert_eq!(extract_id("https://www.deezer.com/en/playlist/908622995?utm=x", "playlist"), "908622995");
    assert_eq!(extract_id("12345", "track"), "12345");
    assert_eq!(extract_id("https://example.com/track/1", "track"), "https://example.com/track/1");
    assert_eq!(extract_id("deezer.com", "track"), "deezer.com");
    assert_eq!(extract_id("https://www.deezer.com/", "track"), "");
}

#[test]
fn artist_reference_or_search() {
    assert!(is_artist_reference("https://www.deezer.com/artist/27"));
    assert!(is_artist_reference("27"));
    assert!(is_artist_reference(""));
    assert!(!is_artist_reference("Daft Punk"));
    assert!(!is_artist_reference("27a"));
}
