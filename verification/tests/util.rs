use voiceload::ident::{get_video_id, BiliId, IdError};
use voiceload::link::is_link;
use voiceload::num::{parse_u64, parse_usize, u64_to_string};
use voiceload::text::{eq_ignore_case, get_env_bool, is_id, safe_filename, str_eq};

#[test]
fn test_filename() {
    assert_eq!(
        "ABC123 q w e r t y u i o".to_string(),
        safe_filename("ABC123?q_w*e<r>t|y\"u、i/o")
    );
}

#[test]
fn test_is_link() {
    println!("{:?}", is_link("https://api.bilibili.com/abc?s=2#23"));
}

#[test]
fn test_parse_url() {
    let url = reqwest::Url::parse("https://www.bilibili.com/a/b/c").unwrap();
    println!("{:?}", url.host_str());
    println!("{:?}", url.path_segments().unwrap().collect::<Vec<&str>>());
}

#[test]
fn filename_untouched_when_safe() {
    assert_eq!("plain name.txt".to_string(), safe_filename("plain name.txt"));
    assert_eq!("".to_string(), safe_filename(""));
}

#[test]
fn is_id_accepts_both_forms() {
    assert!(is_id("BV1fB4y1h76Z"));
    assert!(is_id("bv1fb4y1h76z"));
    assert!(is_id("av600924585"));
    assert!(is_id("600924585"));
    assert!(is_id("  av123  "));
    assert!(is_id("\tav123\n"));
    assert!(is_id("1"));
}

#[test]
fn is_id_rejects_bad_forms() {
    assert!(!is_id("b23.tv"));
    assert!(!is_id("av"));
    assert!(!is_id(""));
    assert!(!is_id("12345678901"));
    assert!(!is_id("avxyz"));
    assert!(!is_id("BV1fB4y1h76Z7"));
}

#[test]
fn video_id_bv_keeps_input() {
    match get_video_id("BV1fB4y1h76Z") {
        Ok(BiliId::BV(s)) => assert_eq!(s, "BV1fB4y1h76Z"),
        other => panic!("{:?}", other),
    }
}

#[test]
fn video_id_av_parses_number() {
    match get_video_id("av600924585") {
        Ok(BiliId::AV(n)) => assert_eq!(n, 600924585),
        other => panic!("{:?}", other),
    }
}

#[test]
fn video_id_errors() {
    assert_eq!(get_video_id("xx123"), Err(IdError::Illegal));
    assert_eq!(get_video_id("a"), Err(IdError::Illegal));
    assert_eq!(get_video_id("av"), Err(IdError::BadNumber));
    assert_eq!(get_video_id("avx1"), Err(IdError::BadNumber));
}

#[test]
fn parse_u64_exact() {
    assert_eq!(parse_u64("0"), Some(0));
    assert_eq!(parse_u64("101"), Some(101));
    assert_eq!(parse_u64("18446744073709551615"), Some(u64::MAX));
    assert_eq!(parse_u64("18446744073709551616"), None);
    assert_eq!(parse_u64(""), None);
    assert_eq!(parse_u64("12a"), None);
    assert_eq!(parse_u64("+1"), None);
}

#[test]
fn parse_usize_exact() {
    assert_eq!(parse_usize("600924585"), Some(600924585usize));
    assert_eq!(parse_usize("9x"), None);
}

#[test]
fn format_and_parse_round_trip() {
    assert_eq!(u64_to_string(0), "0");
    assert_eq!(u64_to_string(75), "75");
    assert_eq!(u64_to_string(u64::MAX), "18446744073709551615");
    for n in [0u64, 1, 9, 10, 99, 100, 12345678901234567] {
        assert_eq!(parse_u64(&u64_to_string(n)), Some(n));
    }
}

#[test]
fn env_bool_tokens() {
    assert_eq!(get_env_bool(Some("true")), Some(true));
    assert_eq!(get_env_bool(Some("TRUE")), Some(true));
    assert_eq!(get_env_bool(Some("Y")), Some(true));
    assert_eq!(get_env_bool(Some("1")), Some(true));
    assert_eq!(get_env_bool(Some("false")), Some(false));
    assert_eq!(get_env_bool(Some("No")), Some(false));
    assert_eq!(get_env_bool(Some("0")), Some(false));
    assert_eq!(get_env_bool(Some("maybe")), None);
    assert_eq!(get_env_bool(Some("")), None);
    assert_eq!(get_env_bool(None), None);
}

#[test]
fn string_comparisons() {
    assert!(str_eq("bytes", "bytes"));
    assert!(!str_eq("bytes", "byte"));
    assert!(!str_eq("bytes", "Bytes"));
    assert!(eq_ignore_case("Bytes", "bYTES"));
    assert!(!eq_ignore_case("bytes", "byte"));
}
