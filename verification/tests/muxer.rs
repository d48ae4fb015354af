use cbstream::chain::Segment;
use cbstream::muxer::manifest_args;
use cbstream::muxer::manifest_exit_failed;
use cbstream::muxer::manifest_file;
use cbstream::muxer::memory_exhausted;
use cbstream::muxer::monitor_step;
use cbstream::muxer::mux_order;
use cbstream::muxer::mux_plan;
use cbstream::muxer::pipe_args;
use cbstream::muxer::pipe_exit_failed;
use cbstream::muxer::set_extension;
use cbstream::muxer::FileManage;
use cbstream::muxer::JsonFile;
use cbstream::muxer::MonitorStep;
use cbstream::muxer::MuxStrategy;
use cbstream::muxer::MEMORY_FLOOR_BYTES;
use cbstream::platform::Platform;

fn seg(id: u64, downloaded: bool) -> Segment {
    Segment {
        sequence_id: id,
        source_url: format!("https://ex.com/live/media_w1_{}.ts", id).into_bytes(),
        destination_path: format!("/tmp/cbstream/cb-alice-d-{}.ts", id).into_bytes(),
        with_header: false,
        downloaded,
    }
}

#[test]
fn empty_session_has_no_mux_plan() {
    let plan = mux_plan(&Vec::new(), b"alice/CB_alice_d", &Platform::CB, true, true);
    assert!(plan.is_none());
}

#[test]
fn memory_guard_kills_below_the_floor() {
    assert!(memory_exhausted(MEMORY_FLOOR_BYTES - 1));
    assert!(!memory_exhausted(MEMORY_FLOOR_BYTES));
    assert_eq!(
        monitor_step(false, MEMORY_FLOOR_BYTES - 1),
        MonitorStep::KillAndRemoveOutput
    );
    assert_eq!(monitor_step(false, MEMORY_FLOOR_BYTES), MonitorStep::KeepWaiting);
    assert_eq!(monitor_step(true, 0), MonitorStep::Finished);
}

#[test]
fn fallback_order_tries_pipe_then_manifest_then_concat() {
    assert_eq!(
        mux_order(true, true),
        vec![MuxStrategy::Pipe, MuxStrategy::Manifest, MuxStrategy::Concat]
    );
    assert_eq!(
        mux_order(false, true),
        vec![MuxStrategy::Manifest, MuxStrategy::Concat]
    );
    assert_eq!(mux_order(true, false), vec![MuxStrategy::Pipe, MuxStrategy::Concat]);
    assert_eq!(mux_order(false, false), vec![MuxStrategy::Concat]);
}

#[test]
fn memory_kill_mid_pipe_falls_through_to_manifest() {
    // Strategy one is running and the monitor sees memory under the floor:
    // the tool is killed, the partial output removed, and the next entry of
    // the fallback chain is the manifest-driven tool.
    let order = mux_order(true, true);
    assert_eq!(order[0], MuxStrategy::Pipe);
    let decision = monitor_step(false, 100_000_000);
    assert_eq!(decision, MonitorStep::KillAndRemoveOutput);
    assert_eq!(order[1], MuxStrategy::Manifest);
}

#[test]
fn manifest_tool_fails_on_code_two_or_no_code() {
    assert!(manifest_exit_failed(None));
    assert!(manifest_exit_failed(Some(2)));
    assert!(!manifest_exit_failed(Some(0)));
    assert!(!manifest_exit_failed(Some(1)));
}

#[test]
fn pipe_tool_fails_on_anything_but_success() {
    assert!(pipe_exit_failed(false));
    assert!(!pipe_exit_failed(true));
}

#[test]
fn set_extension_replaces_the_file_name_extension() {
    assert_eq!(set_extension(b"dir/file.ts", b"mkv"), b"dir/file.mkv".to_vec());
    assert_eq!(set_extension(b"file", b"mkv"), b"file.mkv".to_vec());
    assert_eq!(set_extension(b"a.b/c", b"mkv"), b"a.b/c.mkv".to_vec());
    assert_eq!(set_extension(b".hidden", b"mkv"), b".hidden.mkv".to_vec());
}

#[test]
fn pipe_args_name_container_and_output() {
    let args = pipe_args(&Platform::CB, &b"alice/CB_alice_d.mkv".to_vec());
    let expect: Vec<Vec<u8>> = [
        "-f", "mpegts", "-i", "pipe:0", "-c", "copy", "-y", "alice/CB_alice_d.mkv",
    ]
    .iter()
    .map(|s| s.as_bytes().to_vec())
    .collect();
    assert_eq!(args, expect);
    let args_mp4 = pipe_args(&Platform::SC, &b"o.mkv".to_vec());
    assert_eq!(args_mp4[1], b"mp4".to_vec());
}

#[test]
fn manifest_args_interleave_inputs_with_plus() {
    let inputs = vec![b"a.ts".to_vec(), b"b.ts".to_vec(), b"c.ts".to_vec()];
    let args = manifest_args(&b"out.mkv".to_vec(), &inputs);
    let expect: Vec<Vec<u8>> = ["-o", "out.mkv", "a.ts", "+", "b.ts", "+", "c.ts"]
        .iter()
        .map(|s| s.as_bytes().to_vec())
        .collect();
    assert_eq!(args, expect);
    let none = manifest_args(&b"out.mkv".to_vec(), &Vec::new());
    assert_eq!(none, vec![b"-o".to_vec(), b"out.mkv".to_vec()]);
}

#[test]
fn manifest_file_renders_the_json_list() {
    let args = vec![b"-o".to_vec(), b"out.mkv".to_vec(), b"a.ts".to_vec()];
    let f = manifest_file(b"/tmp/cbstream/", b"CB_alice_d", &args);
    assert_eq!(f.str(), &b"/tmp/cbstream/CB_alice_d.json".to_vec());
    assert_eq!(f.contents(), &b"[\"-o\",\"out.mkv\",\"a.ts\"]".to_vec());
}

#[test]
fn plan_skips_segments_that_never_downloaded() {
    let segments = vec![seg(1, true), seg(2, false), seg(3, true)];
    let plan = mux_plan(&segments, b"alice/CB_alice_d", &Platform::CB, true, true).unwrap();
    assert_eq!(
        plan.inputs,
        vec![
            b"/tmp/cbstream/cb-alice-d-1.ts".to_vec(),
            b"/tmp/cbstream/cb-alice-d-3.ts".to_vec(),
        ]
    );
    assert_eq!(plan.tool_output, b"alice/CB_alice_d.mkv".to_vec());
    assert_eq!(plan.concat_output, b"alice/CB_alice_d.ts".to_vec());
    assert_eq!(plan.order.len(), 3);
    assert_eq!(plan.pipe_args[7], b"alice/CB_alice_d.mkv".to_vec());
    assert_eq!(
        plan.manifest_args,
        vec![
            b"-o".to_vec(),
            b"alice/CB_alice_d.mkv".to_vec(),
            b"/tmp/cbstream/cb-alice-d-1.ts".to_vec(),
            b"+".to_vec(),
            b"/tmp/cbstream/cb-alice-d-3.ts".to_vec(),
        ]
    );
}

#[test]
fn concat_output_uses_the_platform_extension() {
    let segments = vec![seg(1, true)];
    let plan = mux_plan(&segments, b"alice/SC_alice_d", &Platform::SC, false, false).unwrap();
    assert_eq!(plan.concat_output, b"alice/SC_alice_d.mp4".to_vec());
    assert_eq!(plan.order, vec![MuxStrategy::Concat]);
}

#[test]
fn scoped_paths_hold_what_they_were_given() {
    let fm = FileManage::new(b"/tmp/x.json".to_vec());
    assert_eq!(fm.filepath(), &b"/tmp/x.json".to_vec());
    let jf = JsonFile::new(b"/tmp/y.json".to_vec(), b"[]".to_vec());
    assert_eq!(jf.str(), &b"/tmp/y.json".to_vec());
    assert_eq!(jf.contents(), &b"[]".to_vec());
}
