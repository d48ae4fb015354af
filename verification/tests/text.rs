use cbstream::platform::load_key;
use cbstream::platform::platform_extension;
use cbstream::platform::Platform;
use cbstream::settings::Settings;
use cbstream::text::bytes_eq;
use cbstream::text::find_sub;
use cbstream::text::parse_u32;
use cbstream::text::remove_non_num;
use cbstream::text::sanitize_time;
use cbstream::text::split_lines;
use cbstream::text::trim;
use cbstream::text::u32_dec;
use cbstream::text::url_prefix;

#[test]
fn remove_non_num_keeps_digits_in_order() {
    assert_eq!(remove_non_num(b"ws12edge3"), b"123".to_vec());
    assert_eq!(remove_non_num(b"abc"), b"".to_vec());
    assert_eq!(remove_non_num(b"404"), b"404".to_vec());
}

#[test]
fn url_prefix_cuts_at_the_last_slash() {
    assert_eq!(url_prefix(b"https://ex.com/a/b.m3u8"), Some(&b"https://ex.com/a"[..]));
    assert_eq!(url_prefix(b"a/b/c"), Some(&b"a/b"[..]));
    assert_eq!(url_prefix(b"nope"), None);
    assert_eq!(url_prefix(b""), None);
}

#[test]
fn parse_u32_accepts_exactly_fitting_digit_strings() {
    assert_eq!(parse_u32(b"0"), Some(0));
    assert_eq!(parse_u32(b"4294967295"), Some(u32::MAX));
    assert_eq!(parse_u32(b"4294967296"), None);
    assert_eq!(parse_u32(b""), None);
    assert_eq!(parse_u32(b"12a"), None);
    assert_eq!(parse_u32(b" 12"), None);
}

#[test]
fn u32_dec_renders_decimal() {
    assert_eq!(u32_dec(0), b"0".to_vec());
    assert_eq!(u32_dec(7), b"7".to_vec());
    assert_eq!(u32_dec(1234567890), b"1234567890".to_vec());
}

#[test]
fn split_lines_behaves_like_str_lines() {
    let got = split_lines(b"a\r\nb\n\nc\n");
    assert_eq!(got, vec![b"a".to_vec(), b"b".to_vec(), b"".to_vec(), b"c".to_vec()]);
    assert_eq!(split_lines(b""), Vec::<Vec<u8>>::new());
    assert_eq!(split_lines(b"solo"), vec![b"solo".to_vec()]);
    assert_eq!(split_lines(b"\n"), vec![b"".to_vec()]);
}

#[test]
fn trim_strips_ascii_whitespace_both_ends() {
    assert_eq!(trim(b"  42 \t"), b"42".to_vec());
    assert_eq!(trim(b"x"), b"x".to_vec());
    assert_eq!(trim(b" \t "), b"".to_vec());
}

#[test]
fn sanitize_time_rewrites_colons_and_t() {
    assert_eq!(sanitize_time(b"24-02-29T23:12"), b"24-02-29_23-12".to_vec());
}

#[test]
fn find_sub_finds_the_first_occurrence() {
    assert_eq!(find_sub(b"program-date-TIME:x", b"TIME"), Some(13));
    assert_eq!(find_sub(b"abc", b"TIME"), None);
    assert_eq!(find_sub(b"aaa", b"aa"), Some(0));
}

#[test]
fn bytes_eq_compares_contents() {
    assert!(bytes_eq(b"abc", b"abc"));
    assert!(!bytes_eq(b"abc", b"abd"));
    assert!(!bytes_eq(b"abc", b"ab"));
}

#[test]
fn platform_keys_round_trip() {
    assert_eq!(Platform::new(b"CB"), Some(Platform::CB));
    assert_eq!(Platform::new(b"MFC"), Some(Platform::MFC));
    assert_eq!(Platform::new(b"SC"), Some(Platform::SC));
    assert_eq!(Platform::new(b"SCVR"), Some(Platform::SCVR));
    assert_eq!(Platform::new(b"BONGA"), Some(Platform::BONGA));
    assert_eq!(Platform::new(b"SODA"), Some(Platform::SODA));
    assert_eq!(Platform::new(b"XX"), None);
    assert_eq!(Platform::new(b""), None);
    assert_eq!(load_key(b"SC"), Some(Platform::SC));
}

#[test]
fn platform_capabilities_are_fixed() {
    assert_eq!(Platform::CB.referer(), "https://chaturbate.com/");
    assert_eq!(Platform::SODA.referer(), "https://www.camsoda.com/");
    assert_eq!(Platform::CB.container_type(), "mpegts");
    assert_eq!(Platform::SCVR.container_type(), "mp4");
    assert_eq!(platform_extension(&Platform::MFC), "ts");
    assert_eq!(platform_extension(&Platform::SODA), "mp4");
}

#[test]
fn settings_hold_the_useragent_once_set() {
    let mut s = Settings::new();
    assert_eq!(s.get_useragent(), None);
    s.set_useragent(b"cbstream".to_vec());
    assert_eq!(s.get_useragent(), Some(b"cbstream".to_vec()));
}
