//! Mux planning: the multi-backend fallback chain and its memory guard.
//!
//! Muxing a finished session tries up to three strategies in order — a
//! pipe-based remuxer, a manifest-driven container muxer, and a local
//! concatenation that cannot be missing — falling through on failure.  The
//! decisions live here: which strategies to attempt and in what order, the
//! exact argument lists and manifest for the external tools, which segments
//! to feed (only downloaded ones), and when the memory monitor must kill a
//! tool and delete its partial output.  Spawning processes, draining pipes
//! and sampling memory happen outside; they hand plain values back in.

use vstd::prelude::*;

use crate::chain::Segment;
use crate::chain::SegmentModel;
use crate::platform::Platform;
use crate::text::ascii_seq;
use crate::text::clone_bytes;
use crate::text::last_index_of;
use crate::text::lemma_last_index_of_is;
use crate::text::lemma_last_index_of_none;
use crate::text::rfind_byte;
use crate::text::str_bytes;
use crate::text::take_range;

verus! {

/// The memory guard's hard floor: a running tool is killed when available
/// system memory drops below this many bytes.
pub const MEMORY_FLOOR_BYTES: u64 = 200000000;

/// How often the monitor samples tool liveness and memory, in
/// milliseconds.
pub const MONITOR_INTERVAL_MS: u64 = 200;

/// Whether available memory is below the hard floor.
pub fn memory_exhausted(available_bytes: u64) -> (r: bool)
    ensures
        r <==> available_bytes < MEMORY_FLOOR_BYTES,
{
    available_bytes < MEMORY_FLOOR_BYTES
}

/// What the monitor loop does after one sample.
#[derive(Clone, Copy, PartialEq, Eq, Structural, Debug)]
pub enum MonitorStep {
    /// The tool exited; collect its output.
    Finished,
    /// Memory fell below the floor: kill the tool, delete the partial
    /// output file, and report this strategy as failed.
    KillAndRemoveOutput,
    /// Sleep one interval and sample again.
    KeepWaiting,
}

/// One decision of the memory-guard monitor loop.
pub fn monitor_step(exited: bool, available_bytes: u64) -> (r: MonitorStep)
    ensures
        r is Finished <==> exited,
        r is KillAndRemoveOutput <==> !exited && available_bytes < MEMORY_FLOOR_BYTES,
        r is KeepWaiting <==> !exited && available_bytes >= MEMORY_FLOOR_BYTES,
{
    if exited {
        MonitorStep::Finished
    } else if available_bytes < MEMORY_FLOOR_BYTES {
        MonitorStep::KillAndRemoveOutput
    } else {
        MonitorStep::KeepWaiting
    }
}

/// Whether the manifest-driven tool's exit means failure: killed without a
/// code, or the documented failure code 2.  Any other code — warnings
/// included — counts as success.
pub fn manifest_exit_failed(code: Option<i32>) -> (r: bool)
    ensures
        r <==> (code is None || code == Some(2i32)),
{
    match code {
        None => true,
        Some(c) => c == 2,
    }
}

/// Whether the pipe-based tool's exit means failure: anything but a
/// successful exit status.
pub fn pipe_exit_failed(success: bool) -> (r: bool)
    ensures
        r <==> !success,
{
    !success
}

/// One of the three muxing strategies, in fallback order.
#[derive(Clone, Copy, PartialEq, Eq, Structural, Debug)]
pub enum MuxStrategy {
    /// External remuxer fed segment bytes over stdin.
    Pipe,
    /// External container muxer driven by a manifest file.
    Manifest,
    /// Local streaming concatenation; always available.
    Concat,
}

/// The strategies to attempt, in order: each external tool only when it
/// was found on the host, the local concatenation always and last.
pub open spec fn mux_order_spec(pipe_tool: bool, manifest_tool: bool) -> Seq<MuxStrategy> {
    (if pipe_tool {
        seq![MuxStrategy::Pipe]
    } else {
        Seq::empty()
    }) + (if manifest_tool {
        seq![MuxStrategy::Manifest]
    } else {
        Seq::empty()
    }) + seq![MuxStrategy::Concat]
}

/// Lays out the fallback chain for the tools found on the host.
pub fn mux_order(pipe_tool: bool, manifest_tool: bool) -> (r: Vec<MuxStrategy>)
    ensures
        r@ == mux_order_spec(pipe_tool, manifest_tool),
{
    let mut r: Vec<MuxStrategy> = Vec::new();
    if pipe_tool {
        r.push(MuxStrategy::Pipe);
    }
    if manifest_tool {
        r.push(MuxStrategy::Manifest);
    }
    r.push(MuxStrategy::Concat);
    proof {
        assert(r@ =~= mux_order_spec(pipe_tool, manifest_tool));
    }
    r
}

/// Where a path's extension (with its dot) starts, or the path's length
/// when the file name has none.  A dot that leads the file name does not
/// start an extension.
pub open spec fn ext_cut(path: Seq<u8>) -> int {
    let ns = last_index_of(path, '/' as u8) + 1;
    let d = last_index_of(path, '.' as u8);
    if d > ns {
        d
    } else {
        path.len() as int
    }
}

/// The path with its extension replaced by `ext`, as `PathBuf` does it:
/// the file name's extension (if any) is cut off and `.ext` appended.
pub open spec fn spec_set_extension(path: Seq<u8>, ext: Seq<u8>) -> Seq<u8> {
    path.subrange(0, ext_cut(path)) + seq!['.' as u8] + ext
}

/// Replaces a path's extension.
pub fn set_extension(path: &[u8], ext: &[u8]) -> (r: Vec<u8>)
    ensures
        r@ == spec_set_extension(path@, ext@),
{
    let n = path.len();
    let ns: usize = match rfind_byte(path, '/' as u8) {
        Some(k) => {
            proof {
                lemma_last_index_of_is(path@, '/' as u8, k as int);
            }
            k + 1
        },
        None => {
            proof {
                lemma_last_index_of_none(path@, '/' as u8);
            }
            0
        },
    };
    let cut: usize = match rfind_byte(path, '.' as u8) {
        Some(d) => {
            proof {
                lemma_last_index_of_is(path@, '.' as u8, d as int);
            }
            if d > ns {
                d
            } else {
                n
            }
        },
        None => {
            proof {
                lemma_last_index_of_none(path@, '.' as u8);
            }
            n
        },
    };
    let mut r = take_range(path, 0, cut);
    r.push('.' as u8);
    crate::text::append_bytes(&mut r, ext);
    proof {
        assert(r@ =~= spec_set_extension(path@, ext@));
    }
    r
}

/// The temp-file paths of the segments whose download completed, in chain
/// order — a segment that never finished is simply left out.
pub open spec fn downloaded_paths(s: Seq<SegmentModel>) -> Seq<Seq<u8>>
    decreases s.len(),
{
    if s.len() == 0 {
        Seq::empty()
    } else {
        let r = downloaded_paths(s.drop_last());
        if s.last().downloaded {
            r.push(s.last().destination_path)
        } else {
            r
        }
    }
}

/// `filter` over a pushed segment unfolds to a conditional push.
proof fn lemma_downloaded_filter_push(s: Seq<SegmentModel>, m: SegmentModel)
    ensures
        s.push(m).filter(|x: SegmentModel| x.downloaded) == if m.downloaded {
            s.filter(|x: SegmentModel| x.downloaded).push(m)
        } else {
            s.filter(|x: SegmentModel| x.downloaded)
        },
{
    reveal_with_fuel(Seq::filter, 2);
    assert(s.push(m).drop_last() =~= s);
    assert(s.push(m).last() == m);
}

/// Law: the mux inputs are the paths of exactly the segments whose
/// download completed, in chain order — a segment recorded as not
/// downloaded contributes nothing, so its slot is simply missing from
/// the output, and no error arises from it.
pub proof fn lemma_downloaded_paths_exact(s: Seq<SegmentModel>)
    ensures
        downloaded_paths(s) == s.filter(|m: SegmentModel| m.downloaded).map_values(
            |m: SegmentModel| m.destination_path,
        ),
    decreases s.len(),
{
    reveal_with_fuel(Seq::filter, 1);
    if s.len() == 0 {
        assert(downloaded_paths(s) =~= s.filter(|m: SegmentModel| m.downloaded).map_values(
            |m: SegmentModel| m.destination_path,
        ));
    } else {
        lemma_downloaded_paths_exact(s.drop_last());
        lemma_downloaded_filter_push(s.drop_last(), s.last());
        assert(s.drop_last().push(s.last()) =~= s);
        if s.last().downloaded {
            assert(s.filter(|m: SegmentModel| m.downloaded).map_values(
                |m: SegmentModel| m.destination_path,
            ) =~= s.drop_last().filter(|m: SegmentModel| m.downloaded).map_values(
                |m: SegmentModel| m.destination_path,
            ).push(s.last().destination_path));
        }
    }
}

/// Collects the downloaded segments' paths, in order.
pub fn collect_inputs(segments: &Vec<Segment>) -> (r: Vec<Vec<u8>>)
    ensures
        r@.map_values(|v: Vec<u8>| v@) == downloaded_paths(
            segments@.map_values(|s: Segment| s@),
        ),
{
    let ghost models = segments@.map_values(|s: Segment| s@);
    let mut r: Vec<Vec<u8>> = Vec::new();
    let mut i: usize = 0;
    proof {
        assert(models.subrange(0, 0) =~= Seq::<SegmentModel>::empty());
        assert(r@.map_values(|v: Vec<u8>| v@) =~= Seq::<Seq<u8>>::empty());
    }
    while i < segments.len()
        invariant
            i <= segments@.len(),
            models == segments@.map_values(|s: Segment| s@),
            r@.map_values(|v: Vec<u8>| v@) == downloaded_paths(models.subrange(0, i as int)),
        decreases segments@.len() - i,
    {
        proof {
            assert(models.subrange(0, i + 1).drop_last() =~= models.subrange(0, i as int));
            assert(models.subrange(0, i + 1).last() == models[i as int]);
        }
        if segments[i].downloaded {
            r.push(clone_bytes(&segments[i].destination_path));
            proof {
                assert(r@.map_values(|v: Vec<u8>| v@) =~= downloaded_paths(
                    models.subrange(0, i as int),
                ).push(models[i as int].destination_path));
            }
        }
        i = i + 1;
    }
    proof {
        assert(models.subrange(0, models.len() as int) =~= models);
    }
    r
}

/// `paths` joined with a `+` token between consecutive entries, as the
/// manifest-driven tool expects its input list.
pub open spec fn plus_joined(paths: Seq<Seq<u8>>) -> Seq<Seq<u8>>
    decreases paths.len(),
{
    if paths.len() == 0 {
        Seq::empty()
    } else if paths.len() == 1 {
        seq![paths[0]]
    } else {
        plus_joined(paths.drop_last()) + seq![ascii_seq("+"@), paths.last()]
    }
}

/// The whole manifest for the list-driven tool: name the output, then the
/// inputs joined with `+`.
pub open spec fn manifest_args_spec(output: Seq<u8>, inputs: Seq<Seq<u8>>) -> Seq<Seq<u8>> {
    seq![ascii_seq("-o"@), output] + plus_joined(inputs)
}

/// Builds the manifest entries for the list-driven tool.
pub fn manifest_args(output: &Vec<u8>, inputs: &Vec<Vec<u8>>) -> (r: Vec<Vec<u8>>)
    ensures
        r@.map_values(|v: Vec<u8>| v@) == manifest_args_spec(
            output@,
            inputs@.map_values(|v: Vec<u8>| v@),
        ),
{
    let ghost ins = inputs@.map_values(|v: Vec<u8>| v@);
    let mut r: Vec<Vec<u8>> = Vec::new();
    proof {
        reveal_strlit("-o");
        reveal_strlit("+");
    }
    r.push(str_bytes("-o"));
    r.push(clone_bytes(output));
    let mut i: usize = 0;
    proof {
        assert(ins.subrange(0, 0) =~= Seq::<Seq<u8>>::empty());
        assert(r@.map_values(|v: Vec<u8>| v@) =~= seq![ascii_seq("-o"@), output@] + plus_joined(
            ins.subrange(0, 0),
        ));
    }
    while i < inputs.len()
        invariant
            i <= inputs@.len(),
            ins == inputs@.map_values(|v: Vec<u8>| v@),
            r@.map_values(|v: Vec<u8>| v@) == seq![ascii_seq("-o"@), output@] + plus_joined(
                ins.subrange(0, i as int),
            ),
        decreases inputs@.len() - i,
    {
        proof {
            assert(ins.subrange(0, i + 1).drop_last() =~= ins.subrange(0, i as int));
            assert(ins.subrange(0, i + 1).last() == ins[i as int]);
            reveal_strlit("+");
        }
        let ghost prevm = r@.map_values(|v: Vec<u8>| v@);
        if i > 0 {
            r.push(str_bytes("+"));
            r.push(clone_bytes(&inputs[i]));
            proof {
                assert(plus_joined(ins.subrange(0, i + 1)) == plus_joined(ins.subrange(0, i as int))
                    + seq![ascii_seq("+"@), ins[i as int]]);
                assert(r@.map_values(|v: Vec<u8>| v@) =~= prevm + seq![
                    ascii_seq("+"@),
                    ins[i as int],
                ]);
                assert(prevm + seq![ascii_seq("+"@), ins[i as int]] =~= seq![
                    ascii_seq("-o"@),
                    output@,
                ] + plus_joined(ins.subrange(0, i + 1)));
            }
        } else {
            r.push(clone_bytes(&inputs[i]));
            proof {
                assert(plus_joined(ins.subrange(0, i + 1)) == seq![ins[i as int]]);
                assert(r@.map_values(|v: Vec<u8>| v@) =~= prevm.push(ins[i as int]));
                assert(prevm.push(ins[i as int]) =~= seq![ascii_seq("-o"@), output@] + plus_joined(
                    ins.subrange(0, i + 1),
                ));
            }
        }
        i = i + 1;
    }
    proof {
        assert(ins.subrange(0, ins.len() as int) =~= ins);
    }
    r
}

/// The container type told to the pipe-based tool for `p`'s streams.
pub open spec fn spec_container(p: Platform) -> Seq<u8> {
    if p is CB || p is MFC || p is BONGA {
        ascii_seq("mpegts"@)
    } else {
        ascii_seq("mp4"@)
    }
}

/// The extension of the local fallback's output file for `p`.
pub open spec fn spec_extension(p: Platform) -> Seq<u8> {
    if p is CB || p is MFC || p is BONGA {
        ascii_seq("ts"@)
    } else {
        ascii_seq("mp4"@)
    }
}

/// The full argument list of the pipe-based tool: read `container` from
/// stdin, copy streams, overwrite `output`.
pub open spec fn pipe_args_spec(container: Seq<u8>, output: Seq<u8>) -> Seq<Seq<u8>> {
    seq![
        ascii_seq("-f"@),
        container,
        ascii_seq("-i"@),
        ascii_seq("pipe:0"@),
        ascii_seq("-c"@),
        ascii_seq("copy"@),
        ascii_seq("-y"@),
        output,
    ]
}

/// Builds the pipe-based tool's argument list.
pub fn pipe_args(platform: &Platform, output: &Vec<u8>) -> (r: Vec<Vec<u8>>)
    ensures
        r@.map_values(|v: Vec<u8>| v@) == pipe_args_spec(spec_container(*platform), output@),
{
    proof {
        reveal_strlit("-f");
        reveal_strlit("mpegts");
        reveal_strlit("mp4");
        reveal_strlit("-i");
        reveal_strlit("pipe:0");
        reveal_strlit("-c");
        reveal_strlit("copy");
        reveal_strlit("-y");
    }
    let mut r: Vec<Vec<u8>> = Vec::new();
    r.push(str_bytes("-f"));
    let container = match platform {
        Platform::CB | Platform::MFC | Platform::BONGA => str_bytes("mpegts"),
        Platform::SC | Platform::SCVR | Platform::SODA => str_bytes("mp4"),
    };
    r.push(container);
    r.push(str_bytes("-i"));
    r.push(str_bytes("pipe:0"));
    r.push(str_bytes("-c"));
    r.push(str_bytes("copy"));
    r.push(str_bytes("-y"));
    r.push(clone_bytes(output));
    proof {
        assert(r@.map_values(|v: Vec<u8>| v@) =~= pipe_args_spec(
            spec_container(*platform),
            output@,
        ));
    }
    r
}

/// A scoped file path: the file behind it is deleted when the value is
/// dropped by the process layer that wrote it.
pub struct FileManage {
    path: Vec<u8>,
}

impl FileManage {
    /// The managed path.
    pub closed spec fn path_spec(&self) -> Seq<u8> {
        self.path@
    }

    /// Takes a path under management.
    pub fn new(filepath: Vec<u8>) -> (r: FileManage)
        ensures
            r.path_spec() == filepath@,
    {
        FileManage { path: filepath }
    }

    /// The managed path.
    pub fn filepath(&self) -> (r: &Vec<u8>)
        ensures
            r@ == self.path_spec(),
    {
        &self.path
    }
}

/// A manifest file for the list-driven tool: where to write it and what
/// it must hold.  Scoped like `FileManage`: deleted after the mux attempt.
pub struct JsonFile {
    path: Vec<u8>,
    contents: Vec<u8>,
}

impl JsonFile {
    /// The manifest's path.
    pub closed spec fn path_spec(&self) -> Seq<u8> {
        self.path@
    }

    /// The manifest's JSON text.
    pub closed spec fn contents_spec(&self) -> Seq<u8> {
        self.contents@
    }

    /// Describes a manifest file.
    pub fn new(filepath: Vec<u8>, contents: Vec<u8>) -> (r: JsonFile)
        ensures
            r.path_spec() == filepath@,
            r.contents_spec() == contents@,
    {
        JsonFile { path: filepath, contents }
    }

    /// The manifest's path.
    pub fn str(&self) -> (r: &Vec<u8>)
        ensures
            r@ == self.path_spec(),
    {
        &self.path
    }

    /// The manifest's JSON text.
    pub fn contents(&self) -> (r: &Vec<u8>)
        ensures
            r@ == self.contents_spec(),
    {
        &self.contents
    }
}

/// The JSON text that encodes a list of byte strings: each item decoded
/// lossily to text, the list rendered by the JSON serializer.
pub uninterp spec fn json_list_of(items: Seq<Seq<u8>>) -> Seq<u8>;

/// Relies on serde_json::to_string over the lossy-decoded items: the
/// rendering depends on the byte lists alone (non-UTF-8 bytes are
/// collapsed by the lossy decoding first), and serializing a list of
/// strings into an in-memory buffer cannot fail.
#[verifier::external_body]
fn encode_json_list(items: &Vec<Vec<u8>>) -> (r: Vec<u8>)
    ensures
        r@ == json_list_of(items@.map_values(|b: Vec<u8>| b@)),
{
    let strings: Vec<String> = items.iter().map(
        |b| String::from_utf8_lossy(b).into_owned(),
    ).collect();
    serde_json::to_string(&strings)
        .expect("serializing a list of strings into memory cannot fail")
        .into_bytes()
}

/// Lays out the manifest file for one mux attempt: its path is
/// `<temp_dir><name>.json`, its contents the JSON rendering of `args`.
pub fn manifest_file(temp_dir: &[u8], name: &[u8], args: &Vec<Vec<u8>>) -> (r: JsonFile)
    ensures
        r.path_spec() == temp_dir@ + name@ + ascii_seq(".json"@),
        r.contents_spec() == json_list_of(args@.map_values(|b: Vec<u8>| b@)),
{
    let contents = encode_json_list(args);
    let mut path = Vec::<u8>::new();
    crate::text::append_bytes(&mut path, temp_dir);
    crate::text::append_bytes(&mut path, name);
    proof {
        reveal_strlit(".json");
    }
    let ext = str_bytes(".json");
    crate::text::append_bytes(&mut path, ext.as_slice());
    proof {
        assert(path@ =~= temp_dir@ + name@ + ascii_seq(".json"@));
    }
    JsonFile::new(path, contents)
}

/// Everything the process layer needs to mux one finished session.
pub struct MuxPlan {
    /// The strategies to attempt, in order.
    pub order: Vec<MuxStrategy>,
    /// The downloaded segments' temp paths, oldest first.
    pub inputs: Vec<Vec<u8>>,
    /// The output path both external tools write.
    pub tool_output: Vec<u8>,
    /// Argument list for the pipe-based tool.
    pub pipe_args: Vec<Vec<u8>>,
    /// Manifest entries for the list-driven tool.
    pub manifest_args: Vec<Vec<u8>>,
    /// The local fallback's output path, with the platform's extension.
    pub concat_output: Vec<u8>,
}

/// Plans the muxing of a finished session.  An empty session needs no
/// muxing and produces no plan — and so no output file.
pub fn mux_plan(
    segments: &Vec<Segment>,
    output_base: &[u8],
    platform: &Platform,
    pipe_tool: bool,
    manifest_tool: bool,
) -> (r: Option<MuxPlan>)
    ensures
        r is None <==> segments@.len() == 0,
        r matches Some(p) ==> {
            let models = segments@.map_values(|s: Segment| s@);
            let ins = p.inputs@.map_values(|v: Vec<u8>| v@);
            &&& p.order@ == mux_order_spec(pipe_tool, manifest_tool)
            &&& ins == downloaded_paths(models)
            &&& p.tool_output@ == spec_set_extension(output_base@, ascii_seq("mkv"@))
            &&& p.pipe_args@.map_values(|v: Vec<u8>| v@) == pipe_args_spec(
                spec_container(*platform),
                p.tool_output@,
            )
            &&& p.manifest_args@.map_values(|v: Vec<u8>| v@) == manifest_args_spec(
                p.tool_output@,
                ins,
            )
            &&& p.concat_output@ == spec_set_extension(output_base@, spec_extension(*platform))
        },
{
    if segments.len() == 0 {
        return None;
    }
    proof {
        reveal_strlit("mkv");
        reveal_strlit("ts");
        reveal_strlit("mp4");
    }
    let inputs = collect_inputs(segments);
    let mkv_ext = str_bytes("mkv");
    let tool_output = set_extension(output_base, mkv_ext.as_slice());
    let args_pipe = pipe_args(platform, &tool_output);
    let args_manifest = manifest_args(&tool_output, &inputs);
    let plat_ext = match platform {
        Platform::CB | Platform::MFC | Platform::BONGA => str_bytes("ts"),
        Platform::SC | Platform::SCVR | Platform::SODA => str_bytes("mp4"),
    };
    let concat_output = set_extension(output_base, plat_ext.as_slice());
    Some(
        MuxPlan {
            order: mux_order(pipe_tool, manifest_tool),
            inputs,
            tool_output,
            pipe_args: args_pipe,
            manifest_args: args_manifest,
            concat_output,
        },
    )
}

} // verus!
