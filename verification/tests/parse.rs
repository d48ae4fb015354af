use cbstream::platform::Platform;
use cbstream::platforms::bonga;
use cbstream::platforms::cb;
use cbstream::platforms::mfc;
use cbstream::platforms::sc;
use cbstream::platforms::scvr;
use cbstream::platforms::soda;
use cbstream::playlist::parse_playlist;
use cbstream::playlist::ParseError;

const USER: &[u8] = b"alice";
const URL: &[u8] = b"https://ex.com/live/chunklist.m3u8";
const TMP: &[u8] = b"/tmp/cbstream/";
const NOW: &[u8] = b"24-02-29_23-12";

#[test]
fn cb_playlist_yields_ids_urls_paths_and_name() {
    let text = b"#EXTM3U\n\
                 #EXT-X-PROGRAM-DATE-TIME:2024-02-29T23:12:45.678Z\n\
                 media_w1_5.ts\n\
                 media_w1_6.ts\n";
    let out = cb::parse_playlist(text, USER, URL, TMP, NOW, false).unwrap();
    assert_eq!(out.segments.len(), 2);
    assert_eq!(out.segments[0].sequence_id, 5);
    assert_eq!(out.segments[1].sequence_id, 6);
    assert_eq!(
        out.segments[0].source_url,
        b"https://ex.com/live/media_w1_5.ts".to_vec()
    );
    assert_eq!(
        out.segments[0].destination_path,
        b"/tmp/cbstream/cb-alice-24-02-29_23-12-5.ts".to_vec()
    );
    assert!(!out.segments[0].with_header);
    assert!(!out.segments[0].downloaded);
    assert_eq!(out.output_name, Some(b"CB_alice_24-02-29_23-12".to_vec()));
    assert_eq!(out.header_url, None);
}

#[test]
fn cb_time_line_too_short_is_an_error() {
    let text = b"#X-TIME:abc\nmedia_w1_5.ts\n";
    let r = cb::parse_playlist(text, USER, URL, TMP, NOW, false);
    assert_eq!(r.unwrap_err(), ParseError::DateUnparsable);
}

#[test]
fn cb_segment_before_any_date_is_an_error() {
    let text = b"media_w1_5.ts\n";
    let r = cb::parse_playlist(text, USER, URL, TMP, NOW, false);
    assert_eq!(r.unwrap_err(), ParseError::DateMissing);
}

#[test]
fn cb_playlist_url_without_slash_is_an_error() {
    let text = b"#EXT-X-PROGRAM-DATE-TIME:2024-02-29T23:12:45.678Z\nmedia_w1_5.ts\n";
    let r = cb::parse_playlist(text, USER, b"nope", TMP, NOW, false);
    assert_eq!(r.unwrap_err(), ParseError::PrefixMissing);
}

#[test]
fn cb_segment_line_without_dot_has_no_id() {
    let text = b"#EXT-X-PROGRAM-DATE-TIME:2024-02-29T23:12:45.678Z\nmedia_w1_5\n";
    let r = cb::parse_playlist(text, USER, URL, TMP, NOW, false);
    assert_eq!(r.unwrap_err(), ParseError::SegmentIdMissing);
}

#[test]
fn cb_non_numeric_id_does_not_parse() {
    let text = b"#EXT-X-PROGRAM-DATE-TIME:2024-02-29T23:12:45.678Z\nmedia_w1_xyz.ts\n";
    let r = cb::parse_playlist(text, USER, URL, TMP, NOW, false);
    assert_eq!(r.unwrap_err(), ParseError::SegmentIdUnparsable);
}

#[test]
fn cb_oversized_id_does_not_parse() {
    let text = b"#EXT-X-PROGRAM-DATE-TIME:2024-02-29T23:12:45.678Z\nmedia_w1_99999999999.ts\n";
    let r = cb::parse_playlist(text, USER, URL, TMP, NOW, false);
    assert_eq!(r.unwrap_err(), ParseError::SegmentIdUnparsable);
}

#[test]
fn empty_playlist_parses_to_no_segments() {
    let out = cb::parse_playlist(b"", USER, URL, TMP, NOW, false).unwrap();
    assert!(out.segments.is_empty());
    assert_eq!(out.output_name, None);
    assert_eq!(out.header_url, None);
}

#[test]
fn mfc_takes_id_from_second_to_last_dot_chunk() {
    let text = b"#EXTM3U\nchunk_media.345.m4s\n";
    let out = mfc::parse_playlist(text, USER, URL, TMP, NOW, false).unwrap();
    assert_eq!(out.segments.len(), 1);
    assert_eq!(out.segments[0].sequence_id, 345);
    assert_eq!(
        out.segments[0].source_url,
        b"https://ex.com/live/chunk_media.345.m4s".to_vec()
    );
    assert_eq!(
        out.segments[0].destination_path,
        b"/tmp/cbstream/mfc-alice-24-02-29_23-12-345.ts".to_vec()
    );
    // The wall clock names the output: no playlist timestamp needed.
    assert_eq!(out.output_name, Some(b"MFC_alice_24-02-29_23-12".to_vec()));
}

#[test]
fn bonga_takes_id_from_fourth_underscore_chunk() {
    let text = b"#EXTM3U\nhls_stream_480p_1234_chunk.ts\n";
    let out = bonga::parse_playlist(text, USER, URL, TMP, NOW, false).unwrap();
    assert_eq!(out.segments.len(), 1);
    assert_eq!(out.segments[0].sequence_id, 1234);
    assert_eq!(out.output_name, Some(b"BC_alice_24-02-29_23-12".to_vec()));
}

#[test]
fn bonga_line_with_too_few_chunks_has_no_id() {
    let text = b"#EXTM3U\nhls_stream_480p.ts\n";
    let r = bonga::parse_playlist(text, USER, URL, TMP, NOW, false);
    assert_eq!(r.unwrap_err(), ParseError::SegmentIdMissing);
}

#[test]
fn sc_keeps_absolute_urls_and_finds_the_header() {
    let text = b"#EXT-X-MAP:URI=\"https://cdn.ex.com/hls/1/init.mp4\"\n\
                 #EXT-X-PROGRAM-DATE-TIME:2024-02-29T23:12:45.678Z\n\
                 https://cdn.ex.com/hls/1/media_w5_77.mp4\n";
    let out = sc::parse_playlist(text, USER, URL, TMP, NOW, false).unwrap();
    assert_eq!(out.header_url, Some(b"https://cdn.ex.com/hls/1/init.mp4".to_vec()));
    assert_eq!(out.segments.len(), 1);
    assert_eq!(out.segments[0].sequence_id, 77);
    assert_eq!(
        out.segments[0].source_url,
        b"https://cdn.ex.com/hls/1/media_w5_77.mp4".to_vec()
    );
    assert_eq!(
        out.segments[0].destination_path,
        b"/tmp/cbstream/sc-alice-24-02-29_23-12-77.mp4".to_vec()
    );
    assert!(out.segments[0].with_header);
    assert_eq!(out.output_name, Some(b"SC_alice_24-02-29_23-12".to_vec()));
}

#[test]
fn sc_with_known_header_does_not_look_again() {
    let text = b"#EXT-X-MAP:URI=\"https://cdn.ex.com/hls/1/init.mp4\"\n\
                 #EXT-X-PROGRAM-DATE-TIME:2024-02-29T23:12:45.678Z\n\
                 https://cdn.ex.com/hls/1/media_w5_77.mp4\n";
    let out = sc::parse_playlist(text, USER, URL, TMP, NOW, true).unwrap();
    assert_eq!(out.header_url, None);
    assert!(out.segments[0].with_header);
}

#[test]
fn sc_header_without_quotes_is_an_error() {
    let text = b"#EXT-X-MAP:URI=noquotes\n";
    let r = sc::parse_playlist(text, USER, URL, TMP, NOW, false);
    assert_eq!(r.unwrap_err(), ParseError::HeaderUrlMissing);
}

#[test]
fn sc_vr_variant_tags_its_files() {
    let text = b"#EXT-X-PROGRAM-DATE-TIME:2024-02-29T23:12:45.678Z\n\
                 https://cdn.ex.com/hls/1/media_w5_77.mp4\n";
    let out = sc::sc_parse_playlist(true, text, USER, URL, TMP, NOW, false).unwrap();
    assert_eq!(
        out.segments[0].destination_path,
        b"/tmp/cbstream/scvr-alice-24-02-29_23-12-77.mp4".to_vec()
    );
    assert_eq!(out.output_name, Some(b"SCVR_alice_24-02-29_23-12".to_vec()));
    let out2 = scvr::parse_playlist(text, USER, URL, TMP, NOW, false).unwrap();
    assert_eq!(out2.segments[0].destination_path, out.segments[0].destination_path);
}

#[test]
fn soda_reads_id_from_the_fragment_pattern() {
    let text = b"#EXT-X-MAP:URI=\"init.llhls.mp4\"\n\
                 #EXT-X-PROGRAM-DATE-TIME:2024-02-29T23:12:45.678Z\n\
                 seg-778.llhls.mp4\n";
    let out = soda::parse_playlist(text, USER, URL, TMP, NOW, false).unwrap();
    // The header URL resolves against the playlist prefix.
    assert_eq!(
        out.header_url,
        Some(b"https://ex.com/live/init.llhls.mp4".to_vec())
    );
    assert_eq!(out.segments.len(), 1);
    assert_eq!(out.segments[0].sequence_id, 778);
    assert_eq!(out.segments[0].source_url, b"seg-778.llhls.mp4".to_vec());
    assert_eq!(
        out.segments[0].destination_path,
        b"/tmp/cbstream/cs-alice-24-02-29_23-12-778.mp4".to_vec()
    );
    assert!(out.segments[0].with_header);
    assert_eq!(out.output_name, Some(b"CS_alice_24-02-29_23-12".to_vec()));
}

#[test]
fn soda_line_without_the_pattern_has_no_id() {
    let text = b"#EXT-X-PROGRAM-DATE-TIME:2024-02-29T23:12:45.678Z\nplain.mp4\n";
    let r = soda::parse_playlist(text, USER, URL, TMP, NOW, false);
    assert_eq!(r.unwrap_err(), ParseError::SegmentIdMissing);
}

#[test]
fn soda_empty_digit_run_does_not_parse() {
    let text = b"#EXT-X-PROGRAM-DATE-TIME:2024-02-29T23:12:45.678Z\nseg-.llhls.mp4\n";
    let r = soda::parse_playlist(text, USER, URL, TMP, NOW, false);
    assert_eq!(r.unwrap_err(), ParseError::SegmentIdUnparsable);
}

#[test]
fn dispatcher_and_platform_modules_agree() {
    let text = b"#EXT-X-PROGRAM-DATE-TIME:2024-02-29T23:12:45.678Z\nmedia_w1_5.ts\n";
    let a = parse_playlist(&Platform::CB, text, USER, URL, TMP, NOW, false).unwrap();
    let b = cb::parse_playlist(text, USER, URL, TMP, NOW, false).unwrap();
    assert_eq!(a.segments.len(), b.segments.len());
    assert_eq!(a.segments[0].sequence_id, b.segments[0].sequence_id);
    assert_eq!(a.segments[0].source_url, b.segments[0].source_url);
    assert_eq!(a.output_name, b.output_name);
}

#[test]
fn comment_and_blank_lines_are_skipped() {
    let text = b"#EXTM3U\n#EXT-X-PROGRAM-DATE-TIME:2024-02-29T23:12:45.678Z\n\n#comment\nmedia_w1_9.ts\n";
    let out = cb::parse_playlist(text, USER, URL, TMP, NOW, false).unwrap();
    assert_eq!(out.segments.len(), 1);
    assert_eq!(out.segments[0].sequence_id, 9);
}

#[test]
fn parse_error_messages_are_stable() {
    assert_eq!(
        ParseError::DateUnparsable.message(),
        "error parsing date from playlist"
    );
    assert_eq!(
        ParseError::HeaderUrlMissing.message(),
        "can not get mp4 header file"
    );
}
