use cbstream::abort::AbortToken;
use cbstream::chain::Segment;
use cbstream::platform::Platform;
use cbstream::session::body_plausible;
use cbstream::session::Phase;
use cbstream::session::PollStatus;
use cbstream::session::RetryPolicy;
use cbstream::session::Session;
use cbstream::session::MAX_IDLE_POLLS;
use cbstream::session::MIN_SEGMENT_BYTES;

fn seg(id: u64) -> Segment {
    Segment {
        sequence_id: id,
        source_url: format!("https://ex.com/live/media_w1_{}.ts", id).into_bytes(),
        destination_path: format!("/tmp/cbstream/cb-alice-d-{}.ts", id).into_bytes(),
        with_header: false,
        downloaded: false,
    }
}

fn fresh_session() -> Session {
    Session::new(
        Platform::CB,
        b"alice".to_vec(),
        b"https://ex.com/live/chunklist.m3u8".to_vec(),
    )
}

#[test]
fn abort_token_set_twice_equals_once() {
    let mut t = AbortToken::new();
    assert!(!t.get());
    t.set();
    assert!(t.get());
    t.set();
    assert!(t.get());
}

#[test]
fn session_abort_twice_equals_once() {
    let mut s = fresh_session();
    s.abort();
    let after_once = (s.should_poll(false), s.is_downloading(), s.last_id());
    s.abort();
    let after_twice = (s.should_poll(false), s.is_downloading(), s.last_id());
    assert_eq!(after_once, after_twice);
    assert!(!s.should_poll(false));
}

#[test]
fn arrival_order_five_three_six_keeps_five_six() {
    let mut s = fresh_session();
    let r = s.on_poll(vec![seg(5), seg(3), seg(6)]);
    assert_eq!(r.status, PollStatus::Dispatched);
    let dispatched: Vec<u64> = r.dispatch.iter().map(|x| x.sequence_id).collect();
    assert_eq!(dispatched, vec![5, 6]);
    s.finish_polling();
    let flat = s.drain();
    let ids: Vec<u64> = flat.iter().map(|x| x.sequence_id).collect();
    assert_eq!(ids, vec![5, 6]);
}

#[test]
fn draining_session_ignores_further_appends() {
    let mut s = fresh_session();
    s.on_poll(vec![seg(1)]);
    s.finish_polling();
    let r = s.on_poll(vec![seg(2), seg(3)]);
    assert_eq!(r.status, PollStatus::Ignored);
    assert!(r.dispatch.is_empty());
    let flat = s.drain();
    let ids: Vec<u64> = flat.iter().map(|x| x.sequence_id).collect();
    assert_eq!(ids, vec![1]);
}

#[test]
fn session_stalls_after_idle_limit() {
    let mut s = fresh_session();
    for _ in 0..MAX_IDLE_POLLS {
        let r = s.on_poll(Vec::new());
        assert_eq!(r.status, PollStatus::Dispatched);
        assert!(s.should_poll(false));
    }
    let r = s.on_poll(Vec::new());
    assert_eq!(r.status, PollStatus::Stalled);
    assert!(!s.should_poll(false));
    assert!(!s.is_downloading());
}

#[test]
fn accepted_segment_resets_idle_count() {
    let mut s = fresh_session();
    for _ in 0..MAX_IDLE_POLLS {
        s.on_poll(Vec::new());
    }
    // One accepted segment on the last allowed cycle keeps the session alive.
    let r = s.on_poll(vec![seg(1)]);
    assert_eq!(r.status, PollStatus::Stalled);
    // A fresh session that saw a segment just before the limit polls on.
    let mut s2 = fresh_session();
    for _ in 0..MAX_IDLE_POLLS - 1 {
        s2.on_poll(Vec::new());
    }
    let r2 = s2.on_poll(vec![seg(1)]);
    assert_eq!(r2.status, PollStatus::Dispatched);
    for _ in 0..MAX_IDLE_POLLS {
        let r3 = s2.on_poll(Vec::new());
        assert_eq!(r3.status, PollStatus::Dispatched);
    }
    let r4 = s2.on_poll(Vec::new());
    assert_eq!(r4.status, PollStatus::Stalled);
}

#[test]
fn global_abort_stops_polling_like_session_abort() {
    let s = fresh_session();
    assert!(s.should_poll(false));
    assert!(!s.should_poll(true));
}

#[test]
fn retry_policy_allows_exactly_its_attempts() {
    let mut p = RetryPolicy::new();
    let mut attempts = 0;
    while p.should_attempt() {
        attempts += 1;
        p.record_failure();
    }
    assert_eq!(attempts, 5);
    assert_eq!(p.backoff_ms(), 250);

    let mut single = RetryPolicy::with_attempts(1);
    assert!(single.should_attempt());
    assert!(!single.record_failure());
    assert!(!single.should_attempt());
}

#[test]
fn implausibly_small_body_is_rejected() {
    assert!(!body_plausible(0));
    assert!(!body_plausible(MIN_SEGMENT_BYTES - 1));
    assert!(body_plausible(MIN_SEGMENT_BYTES));
    assert!(body_plausible(MIN_SEGMENT_BYTES + 1));
}

#[test]
fn failed_download_leaves_segment_unmarked() {
    let mut s = fresh_session();
    s.on_poll(vec![seg(1), seg(2)]);
    s.on_download(1, true);
    s.on_download(2, false);
    s.finish_polling();
    let flat = s.drain();
    assert!(flat[0].downloaded);
    assert!(!flat[1].downloaded);
}

#[test]
fn header_is_kept_once_and_only_once() {
    let mut s = Session::new(
        Platform::SC,
        b"alice".to_vec(),
        b"https://ex.com/live/chunklist.m3u8".to_vec(),
    );
    assert!(!s.has_header());
    s.offer_header(b"first".to_vec());
    s.offer_header(b"second".to_vec());
    assert!(s.has_header());
    assert_eq!(s.header_bytes(), Some(b"first".to_vec()));
}

#[test]
fn output_name_is_fixed_by_the_first_offer() {
    let mut s = fresh_session();
    assert!(s.output_name().is_none());
    s.offer_output_name(b"CB_alice_24-02-29_23-12".to_vec());
    s.offer_output_name(b"CB_alice_later".to_vec());
    assert_eq!(s.output_name(), Some(b"CB_alice_24-02-29_23-12".to_vec()));
}

#[test]
fn phases_compare_by_variant() {
    assert_eq!(Phase::Polling, Phase::Polling);
    assert_ne!(Phase::Polling, Phase::Draining);
}
