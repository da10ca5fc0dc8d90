use deezer_dl::models::{
    CurrentUser, FieldValue, MediaData, MediaError, MediaInfo, MediaResponse, MediaSource,
    UserData, UserInfo, UserOptions,
};
use deezer_dl::session::{next_page_start, request_id, should_renew_token};
use deezer_dl::text::parse_i64;

fn login_data(id: FieldValue, options: Option<UserOptions>) -> UserData {
    UserData {
        user: UserInfo {
            user_id: id,
            blog_name: Some("listener".to_string()),
            user_picture: None,
            options,
            loved_tracks_id: Some(FieldValue::Text("77".to_string())),
        },
        check_form: None,
        check_form_login: None,
    }
}

#[test]
fn login_with_anonymous_id_fails() {
    assert!(CurrentUser::from_user_data(&login_data(FieldValue::Unsigned(0), None)).is_none());
    assert!(CurrentUser::from_user_data(&login_data(FieldValue::Text("0".to_string()), None)).is_none());
    assert!(CurrentUser::from_user_data(&login_data(FieldValue::Other, None)).is_none());
}

#[test]
fn login_reads_user_fields() {
    let options = UserOptions {
        license_token: Some("tok".to_string()),
        web_hq: Some(false),
        mobile_hq: Some(true),
        web_lossless: None,
        mobile_lossless: Some(false),
        license_country: Some("FR".to_string()),
    };
    let u = CurrentUser::from_user_data(&login_data(FieldValue::Text("1234".to_string()), Some(options))).unwrap();
    assert_eq!(u.id, 1234);
    assert_eq!(u.name, "listener");
    assert_eq!(u.license_token, "tok");
    assert!(u.can_stream_hq);
    assert!(!u.can_stream_lossless);
    assert_eq!(u.country, "FR");
    assert_eq!(u.loved_tracks_id, 77);
    let bare = CurrentUser::from_user_data(&login_data(FieldValue::Unsigned(5), None)).unwrap();
    assert_eq!(bare.id, 5);
    assert_eq!(bare.license_token, "");
    assert!(!bare.can_stream_hq);
}

#[test]
fn token_renewal_decision() {
    assert!(should_renew_token("{\"VALID_TOKEN_REQUIRED\":\"invalid api token\"}", false));
    assert!(should_renew_token("Invalid CSRF token", false));
    assert!(!should_renew_token("invalid api token", true));
    assert!(!should_renew_token("{}", false));
}

#[test]
fn paging_decision() {
    assert_eq!(next_page_start(0, 100, 250, 100), Some(100));
    assert_eq!(next_page_start(200, 100, 250, 50), None);
    assert_eq!(next_page_start(0, 100, 250, 0), None);
    assert_eq!(next_page_start(u64::MAX - 5, 100, u64::MAX, 100), None);
}

#[test]
fn media_answer_url() {
    let answer = MediaResponse {
        data: vec![
            MediaData {
                media: Some(vec![MediaInfo { sources: vec![MediaSource { url: "skip".to_string() }] }]),
                errors: Some(vec![MediaError { code: 2002, message: None }]),
            },
            MediaData { media: Some(vec![]), errors: None },
            MediaData {
                media: Some(vec![MediaInfo {
                    sources: vec![
                        MediaSource { url: "https://cdn/first".to_string() },
                        MediaSource { url: "https://cdn/second".to_string() },
                    ],
                }]),
                errors: None,
            },
        ],
    };
    assert_eq!(answer.stream_url(), Some("https://cdn/first".to_string()));
    assert_eq!(MediaResponse { data: vec![] }.stream_url(), None);
}

#[test]
fn batch_request_ids() {
    assert!(matches!(request_id("3135556"), FieldValue::Signed(3135556)));
    assert!(matches!(request_id("-12"), FieldValue::Signed(-12)));
    match request_id("abc") {
        FieldValue::Text(t) => assert_eq!(t, "abc"),
        other => panic!("unexpected {:?}", other),
    }
    for s in ["0", "+5", "-0", "-", "+", "", "9223372036854775807", "9223372036854775808", "-9223372036854775808", "-9223372036854775809", "1e3"] {
        assert_eq!(parse_i64(s), s.parse::<i64>().ok(), "input {:?}", s);
    }
}
