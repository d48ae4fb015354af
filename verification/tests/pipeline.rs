//! One session driven end to end through the library: parse, poll,
//! download outcomes, drain, and mux planning.

use cbstream::muxer::mux_plan;
use cbstream::platform::Platform;
use cbstream::platforms::cb;
use cbstream::session::Session;

#[test]
fn one_cb_session_from_playlist_to_mux_plan() {
    let mut session = Session::new(
        Platform::CB,
        b"alice".to_vec(),
        b"https://ex.com/live/chunklist.m3u8".to_vec(),
    );

    // First poll: the playlist lists ids 5, 3, 6 in that order.
    let text = b"#EXTM3U\n\
                 #EXT-X-PROGRAM-DATE-TIME:2024-02-29T23:12:45.678Z\n\
                 media_w1_5.ts\n\
                 media_w1_3.ts\n\
                 media_w1_6.ts\n";
    let parsed = cb::parse_playlist(
        text,
        b"alice",
        b"https://ex.com/live/chunklist.m3u8",
        b"/tmp/cbstream/",
        b"24-02-29_23-12",
        session.has_header(),
    )
    .unwrap();
    if let Some(name) = parsed.output_name {
        session.offer_output_name(name);
    }
    let r = session.on_poll(parsed.segments);
    let dispatched: Vec<u64> = r.dispatch.iter().map(|s| s.sequence_id).collect();
    assert_eq!(dispatched, vec![5, 6]);

    // Second poll re-lists 5 and 6 and announces 7.
    let text2 = b"#EXTM3U\n\
                  #EXT-X-PROGRAM-DATE-TIME:2024-02-29T23:13:45.678Z\n\
                  media_w1_5.ts\n\
                  media_w1_6.ts\n\
                  media_w1_7.ts\n";
    let parsed2 = cb::parse_playlist(
        text2,
        b"alice",
        b"https://ex.com/live/chunklist.m3u8",
        b"/tmp/cbstream/",
        b"24-02-29_23-13",
        session.has_header(),
    )
    .unwrap();
    let r2 = session.on_poll(parsed2.segments);
    let dispatched2: Vec<u64> = r2.dispatch.iter().map(|s| s.sequence_id).collect();
    assert_eq!(dispatched2, vec![7]);

    // Downloads finish; segment 6 came back under the plausible size and
    // was discarded, so it is never marked downloaded.
    session.on_download(5, true);
    session.on_download(6, false);
    session.on_download(7, true);

    session.finish_polling();
    assert!(!session.is_downloading());
    let name = session.output_name().unwrap();
    assert_eq!(name, b"CB_alice_24-02-29_23-12".to_vec());

    let segments = session.drain();
    let ids: Vec<u64> = segments.iter().map(|s| s.sequence_id).collect();
    assert_eq!(ids, vec![5, 6, 7]);

    // The mux plan feeds only the downloaded segments, in order; the slot
    // of segment 6 is simply missing from the output.
    let mut base = b"alice/".to_vec();
    base.extend_from_slice(&name);
    let plan = mux_plan(&segments, &base, &Platform::CB, true, true).unwrap();
    assert_eq!(
        plan.inputs,
        vec![
            b"/tmp/cbstream/cb-alice-24-02-29_23-12-5.ts".to_vec(),
            // Segment 7 was parsed in the second cycle, under its timestamp.
            b"/tmp/cbstream/cb-alice-24-02-29_23-13-7.ts".to_vec(),
        ]
    );
    assert_eq!(plan.tool_output, b"alice/CB_alice_24-02-29_23-12.mkv".to_vec());
    assert_eq!(plan.concat_output, b"alice/CB_alice_24-02-29_23-12.ts".to_vec());
}

#[test]
fn empty_session_drains_to_no_plan() {
    let mut session = Session::new(
        Platform::CB,
        b"alice".to_vec(),
        b"https://ex.com/live/chunklist.m3u8".to_vec(),
    );
    session.finish_polling();
    let segments = session.drain();
    assert!(segments.is_empty());
    assert!(mux_plan(&segments, b"alice/out", &Platform::CB, true, true).is_none());
}
