use deezer_dl::models::TrackFormat;

#[test]
fn format_codes_names_and_extensions() {
    assert_eq!(TrackFormat::Flac.code(), 9);
    assert_eq!(TrackFormat::Mp3_320.code(), 3);
    assert_eq!(TrackFormat::Mp3_128.code(), 1);
    assert_eq!(TrackFormat::Flac.api_name(), "FLAC");
    assert_eq!(TrackFormat::Mp3_320.api_name(), "MP3_320");
    assert_eq!(TrackFormat::Mp3_128.api_name(), "MP3_128");
    assert_eq!(TrackFormat::Flac.extension(), ".flac");
    assert_eq!(TrackFormat::Mp3_320.extension(), ".mp3");
    assert_eq!(TrackFormat::Mp3_128.extension(), ".mp3");
}

#[test]
fn fallback_chain_from_lossless_has_three_formats() {
    let mut seen = Vec::new();
    let mut cur = Some(TrackFormat::Flac);
    while let Some(f) = cur {
        seen.push(f);
        assert!(seen.len() <= 3);
        cur = f.fallback();
    }
    assert_eq!(seen, vec![TrackFormat::Flac, TrackFormat::Mp3_320, TrackFormat::Mp3_128]);
    assert_eq!(TrackFormat::Flac.chain(), seen);
    assert_eq!(TrackFormat::Mp3_320.chain(), vec![TrackFormat::Mp3_320, TrackFormat::Mp3_128]);
    assert_eq!(TrackFormat::Mp3_128.chain(), vec![TrackFormat::Mp3_128]);
    assert_eq!(TrackFormat::Mp3_128.fallback(), None);
}
