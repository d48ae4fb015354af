use cbstream::chain::Segment;
use cbstream::chain::SegmentChain;

fn seg(id: u64) -> Segment {
    Segment {
        sequence_id: id,
        source_url: format!("https://ex.com/live/media_w1_{}.ts", id).into_bytes(),
        destination_path: format!("/tmp/cbstream/cb-alice-d-{}.ts", id).into_bytes(),
        with_header: false,
        downloaded: false,
    }
}

#[test]
fn empty_chain_flattens_to_nothing() {
    let chain = SegmentChain::new();
    assert_eq!(chain.len(), 0);
    assert!(chain.last_id().is_none());
    let flat = chain.flatten();
    assert!(flat.is_empty());
}

#[test]
fn append_keeps_strictly_newer_ids_only() {
    let mut chain = SegmentChain::new();
    assert!(chain.append(seg(5)));
    assert!(!chain.append(seg(3)));
    assert!(!chain.append(seg(5)));
    assert!(chain.append(seg(6)));
    assert_eq!(chain.last_id(), Some(6));
    let flat = chain.flatten();
    let ids: Vec<u64> = flat.iter().map(|s| s.sequence_id).collect();
    assert_eq!(ids, vec![5, 6]);
}

#[test]
fn flatten_is_sorted_strictly_ascending() {
    let mut chain = SegmentChain::new();
    for id in [2u64, 1, 2, 7, 4, 9, 9, 12] {
        chain.append(seg(id));
    }
    let flat = chain.flatten();
    let ids: Vec<u64> = flat.iter().map(|s| s.sequence_id).collect();
    assert_eq!(ids, vec![2, 7, 9, 12]);
    for w in ids.windows(2) {
        assert!(w[0] < w[1]);
    }
}

#[test]
fn flatten_reconstructs_each_accepted_segment_once() {
    let mut chain = SegmentChain::new();
    let mut accepted: Vec<u64> = Vec::new();
    for id in [10u64, 11, 11, 5, 30, 30, 31] {
        if chain.append(seg(id)) {
            accepted.push(id);
        }
    }
    let flat = chain.flatten();
    let ids: Vec<u64> = flat.iter().map(|s| s.sequence_id).collect();
    assert_eq!(ids, accepted);
    assert_eq!(ids, vec![10, 11, 30, 31]);
}

#[test]
fn set_downloaded_marks_only_the_named_id() {
    let mut chain = SegmentChain::new();
    chain.append(seg(1));
    chain.append(seg(2));
    chain.append(seg(3));
    chain.set_downloaded(2, true);
    let flat = chain.flatten();
    assert!(!flat[0].downloaded);
    assert!(flat[1].downloaded);
    assert!(!flat[2].downloaded);
}

#[test]
fn set_downloaded_of_unknown_id_changes_nothing() {
    let mut chain = SegmentChain::new();
    chain.append(seg(1));
    chain.set_downloaded(99, true);
    let flat = chain.flatten();
    assert_eq!(flat.len(), 1);
    assert!(!flat[0].downloaded);
}
