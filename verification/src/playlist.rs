//! The playlist grammars: one parse per platform, all over the same
//! line-oriented shape.
//!
//! A playlist snapshot is ephemeral text, reparsed every poll cycle.  Each
//! non-comment line names one media segment; comment lines may carry the
//! programme timestamp and the shared container-header URL.  The parse
//! turns the text into candidate segments — id, source URL, temp-file
//! path — and reports the session's output name and the header URL still
//! to fetch.  What varies by platform is the id grammar, how the segment
//! URL is formed, and where the timestamp comes from.

use vstd::prelude::*;

use crate::chain::Segment;
use crate::chain::SegmentModel;
use crate::platform::Platform;
use crate::text::ascii_seq;
use crate::text::clone_bytes;
use crate::text::dec_rep;
use crate::text::dec_u32;
use crate::text::digits_of;
use crate::text::find_byte;
use crate::text::find_from;
use crate::text::find_sub;
use crate::text::first_index_of;
use crate::text::is_digit;
use crate::text::last_index_of;
use crate::text::lemma_find_from_is;
use crate::text::lemma_find_from_none;
use crate::text::lemma_first_index_of_is;
use crate::text::lemma_last_index_of_is;
use crate::text::lemma_last_index_of_none;
use crate::text::lines_of;
use crate::text::occurs_at;
use crate::text::parse_u32;
use crate::text::remove_non_num;
use crate::text::rfind_byte;
use crate::text::sanitize_time;
use crate::text::split_at_byte;
use crate::text::split_byte;
use crate::text::split_lines;
use crate::text::str_bytes;
use crate::text::take_range;
use crate::text::time_char;
use crate::text::trim;
use crate::text::trim_spec;
use crate::text::u32_dec;
use vstd::slice::slice_subrange;

verus! {

/// Why a playlist snapshot was rejected.  The session treats any of these
/// as an empty cycle and polls again.
#[derive(Clone, Copy, PartialEq, Eq, Structural, Debug)]
pub enum ParseError {
    /// A timestamp line was found but is too short to hold a timestamp.
    DateUnparsable,
    /// A segment line arrived before any timestamp line.
    DateMissing,
    /// A header declaration carries no quoted URL.
    HeaderUrlMissing,
    /// The playlist URL has no `/`, so no segment URL can be formed.
    PrefixMissing,
    /// A segment line holds no id where the grammar expects one.
    SegmentIdMissing,
    /// The id text does not parse as an unsigned 32-bit number.
    SegmentIdUnparsable,
}

impl ParseError {
    /// A short description for logs.
    pub fn message(&self) -> (r: &'static str)
        ensures
            *self is DateUnparsable ==> r@ == "error parsing date from playlist"@,
            *self is DateMissing ==> r@ == "no date found in playlist"@,
            *self is HeaderUrlMissing ==> r@ == "can not get mp4 header file"@,
            *self is PrefixMissing ==> r@ == "playlist url has no prefix"@,
            *self is SegmentIdMissing ==> r@ == "no segment id in playlist line"@,
            *self is SegmentIdUnparsable ==> r@ == "segment id does not parse"@,
    {
        match self {
            ParseError::DateUnparsable => "error parsing date from playlist",
            ParseError::DateMissing => "no date found in playlist",
            ParseError::HeaderUrlMissing => "can not get mp4 header file",
            ParseError::PrefixMissing => "playlist url has no prefix",
            ParseError::SegmentIdMissing => "no segment id in playlist line",
            ParseError::SegmentIdUnparsable => "segment id does not parse",
        }
    }
}

/// The fixed inputs of one parse.
pub ghost struct ParseCtx {
    pub platform: Platform,
    pub username: Seq<u8>,
    /// The playlist URL up to its last `/`, if it has one.
    pub prefix: Option<Seq<u8>>,
    pub temp_dir: Seq<u8>,
    /// The wall-clock timestamp, for platforms whose playlists carry none.
    pub now_date: Seq<u8>,
    /// Whether the session already holds the shared container header.
    pub has_header: bool,
}

/// The parse state after some prefix of the lines.
pub ghost struct ParseState {
    pub date: Option<Seq<u8>>,
    pub header_url: Option<Seq<u8>>,
    pub segments: Seq<SegmentModel>,
}

/// What a successful parse yields.
pub ghost struct ParseOutputModel {
    pub segments: Seq<SegmentModel>,
    pub output_name: Option<Seq<u8>>,
    pub header_url: Option<Seq<u8>>,
}

/// The playlist URL's prefix: everything before its last `/`.
pub open spec fn spec_url_prefix(url: Seq<u8>) -> Option<Seq<u8>> {
    let k = last_index_of(url, '/' as u8);
    if k >= 0 {
        Some(url.subrange(0, k))
    } else {
        None
    }
}

/// The output-name tag of a platform.
pub open spec fn tag_of(p: Platform) -> Seq<u8> {
    match p {
        Platform::CB => ascii_seq("CB_"@),
        Platform::MFC => ascii_seq("MFC_"@),
        Platform::SC => ascii_seq("SC_"@),
        Platform::SCVR => ascii_seq("SCVR_"@),
        Platform::BONGA => ascii_seq("BC_"@),
        Platform::SODA => ascii_seq("CS_"@),
    }
}

/// The temp-file tag of a platform.
pub open spec fn file_tag_of(p: Platform) -> Seq<u8> {
    match p {
        Platform::CB => ascii_seq("cb-"@),
        Platform::MFC => ascii_seq("mfc-"@),
        Platform::SC => ascii_seq("sc-"@),
        Platform::SCVR => ascii_seq("scvr-"@),
        Platform::BONGA => ascii_seq("bc-"@),
        Platform::SODA => ascii_seq("cs-"@),
    }
}

/// The temp-file extension of a platform's segments.
pub open spec fn seg_ext_of(p: Platform) -> Seq<u8> {
    if p is CB || p is MFC || p is BONGA {
        ascii_seq(".ts"@)
    } else {
        ascii_seq(".mp4"@)
    }
}

/// Whether the platform's playlists carry the timestamp themselves; the
/// others use the wall clock.
pub open spec fn uses_playlist_date(p: Platform) -> bool {
    p is CB || p is SC || p is SCVR || p is SODA
}

/// Whether the platform's segments ride on a shared container header.
pub open spec fn uses_header(p: Platform) -> bool {
    p is SC || p is SCVR || p is SODA
}

/// The session's output name: tag, model name, timestamp.
pub open spec fn spec_name(p: Platform, username: Seq<u8>, date: Seq<u8>) -> Seq<u8> {
    tag_of(p) + username + seq!['_' as u8] + date
}

/// A segment's temp-file path.
pub open spec fn spec_seg_path(
    p: Platform,
    temp_dir: Seq<u8>,
    username: Seq<u8>,
    date: Seq<u8>,
    id: u32,
) -> Seq<u8> {
    temp_dir + file_tag_of(p) + username + seq!['-' as u8] + date + seq!['-' as u8] + dec_rep(
        id as int,
    ) + seg_ext_of(p)
}

/// The timestamp a line carries, already rewritten for file names: the 14
/// bytes that follow `TIME` at distance 7, when the line holds them.
pub open spec fn spec_time_of_line(line: Seq<u8>) -> Result<Option<Seq<u8>>, ParseError> {
    match find_from(line, ascii_seq("TIME"@), 0) {
        Option::None => Ok(Option::None),
        Option::Some(n) => if n + 21 <= line.len() {
            Ok(Option::Some(line.subrange(n + 7, n + 21).map_values(|b: u8| time_char(b))))
        } else {
            Err(ParseError::DateUnparsable)
        },
    }
}

/// The run of ASCII digits starting at `i`.
pub open spec fn digit_run(s: Seq<u8>, i: int) -> int
    decreases s.len() - i,
{
    if 0 <= i < s.len() && is_digit(s[i]) {
        1 + digit_run(s, i + 1)
    } else {
        0
    }
}

/// Whether the fragment-id pattern matches at `i`: a `-`, a digit run,
/// then the literal `.llhls.mp4`.
pub open spec fn soda_match(line: Seq<u8>, i: int) -> bool {
    &&& 0 <= i < line.len()
    &&& line[i] == '-' as u8
    &&& occurs_at(line, ascii_seq(".llhls.mp4"@), i + 1 + digit_run(line, i + 1))
}

/// The first position where the fragment-id pattern matches, at or after
/// `i`.
pub open spec fn soda_find(line: Seq<u8>, i: int) -> Option<int>
    decreases line.len() - i,
{
    if i >= line.len() || i < 0 {
        Option::None
    } else if soda_match(line, i) {
        Option::Some(i)
    } else {
        soda_find(line, i + 1)
    }
}

/// The segment id a line carries, under the platform's grammar.
pub open spec fn spec_id_of_line(p: Platform, line: Seq<u8>) -> Result<u32, ParseError> {
    match p {
        Platform::CB | Platform::SC | Platform::SCVR => {
            let chunk = line.subrange(last_index_of(line, '_' as u8) + 1, line.len() as int);
            let d = first_index_of(chunk, '.' as u8);
            if d >= chunk.len() {
                Err(ParseError::SegmentIdMissing)
            } else {
                match dec_u32(trim_spec(chunk.subrange(0, d as int))) {
                    Option::Some(v) => Ok(v),
                    Option::None => Err(ParseError::SegmentIdUnparsable),
                }
            }
        },
        Platform::MFC => {
            let parts = split_at_byte(line, '.' as u8);
            let idx = if parts.len() >= 2 {
                parts.len() - 2
            } else {
                0
            };
            match dec_u32(digits_of(parts[idx as int])) {
                Option::Some(v) => Ok(v),
                Option::None => Err(ParseError::SegmentIdUnparsable),
            }
        },
        Platform::BONGA => {
            let parts = split_at_byte(line, '_' as u8);
            if parts.len() < 4 {
                Err(ParseError::SegmentIdMissing)
            } else {
                match dec_u32(digits_of(parts[3])) {
                    Option::Some(v) => Ok(v),
                    Option::None => Err(ParseError::SegmentIdUnparsable),
                }
            }
        },
        Platform::SODA => {
            match soda_find(line, 0) {
                Option::None => Err(ParseError::SegmentIdMissing),
                Option::Some(i) => {
                    let k = digit_run(line, i + 1);
                    match dec_u32(line.subrange(i + 1, i + 1 + k)) {
                        Option::Some(v) => Ok(v),
                        Option::None => Err(ParseError::SegmentIdUnparsable),
                    }
                },
            }
        },
    }
}

/// A segment's source URL: the playlist line itself, or for platforms
/// with relative playlists the playlist prefix, a `/`, and the line.
pub open spec fn spec_url_of_line(p: Platform, prefix: Option<Seq<u8>>, line: Seq<u8>) -> Result<
    Seq<u8>,
    ParseError,
> {
    match p {
        Platform::CB | Platform::MFC | Platform::BONGA => match prefix {
            Option::None => Err(ParseError::PrefixMissing),
            Option::Some(pre) => Ok(pre + seq!['/' as u8] + line),
        },
        Platform::SC | Platform::SCVR | Platform::SODA => Ok(line),
    }
}

/// The header URL a line declares, when the platform uses one, none is
/// known yet, and the line carries the header tag: the first quoted text,
/// resolved against the playlist prefix where the platform needs that.
pub open spec fn spec_header_of_line(
    p: Platform,
    has_header: bool,
    already_found: bool,
    prefix: Option<Seq<u8>>,
    line: Seq<u8>,
) -> Result<Option<Seq<u8>>, ParseError> {
    if uses_header(p) && !has_header && !already_found && find_from(
        line,
        ascii_seq("EXT-X-MAP:URI"@),
        0,
    ) is Some {
        let parts = split_at_byte(line, '"' as u8);
        if parts.len() < 2 {
            Err(ParseError::HeaderUrlMissing)
        } else if p is SODA {
            match prefix {
                Option::None => Err(ParseError::PrefixMissing),
                Option::Some(pre) => Ok(Option::Some(pre + seq!['/' as u8] + parts[1])),
            }
        } else {
            Ok(Option::Some(parts[1]))
        }
    } else {
        Ok(Option::None)
    }
}

/// The timestamp a finished parse leaves the session with.
pub open spec fn date_of(ctx: ParseCtx, st: ParseState) -> Option<Seq<u8>> {
    if uses_playlist_date(ctx.platform) {
        st.date
    } else {
        Option::Some(ctx.now_date)
    }
}

/// One line's effect on the parse state: note a header URL, note a
/// timestamp, skip comments and blanks, and turn every other line into a
/// candidate segment.
pub open spec fn spec_step(ctx: ParseCtx, st: ParseState, line: Seq<u8>) -> Result<
    ParseState,
    ParseError,
> {
    match spec_header_of_line(
        ctx.platform,
        ctx.has_header,
        st.header_url is Some,
        ctx.prefix,
        line,
    ) {
        Err(e) => Err(e),
        Ok(h) => {
            let st1 = ParseState {
                header_url: if h is Some {
                    h
                } else {
                    st.header_url
                },
                ..st
            };
            let date_step: Result<Option<Seq<u8>>, ParseError> = if uses_playlist_date(
                ctx.platform,
            ) && st1.date is None {
                spec_time_of_line(line)
            } else {
                Ok(Option::None)
            };
            match date_step {
                Err(e) => Err(e),
                Ok(d) => {
                    let st2 = ParseState {
                        date: if d is Some {
                            d
                        } else {
                            st1.date
                        },
                        ..st1
                    };
                    if line.len() == 0 || line[0] == '#' as u8 {
                        Ok(st2)
                    } else {
                        match spec_url_of_line(ctx.platform, ctx.prefix, line) {
                            Err(e) => Err(e),
                            Ok(url) => match spec_id_of_line(ctx.platform, line) {
                                Err(e) => Err(e),
                                Ok(id) => match date_of(ctx, st2) {
                                    Option::None => Err(ParseError::DateMissing),
                                    Option::Some(date) => Ok(
                                        ParseState {
                                            segments: st2.segments.push(
                                                SegmentModel {
                                                    sequence_id: id as u64,
                                                    source_url: url,
                                                    destination_path: spec_seg_path(
                                                        ctx.platform,
                                                        ctx.temp_dir,
                                                        ctx.username,
                                                        date,
                                                        id,
                                                    ),
                                                    with_header: uses_header(ctx.platform) && (
                                                    ctx.has_header || st2.header_url is Some),
                                                    downloaded: false,
                                                },
                                            ),
                                            ..st2
                                        },
                                    ),
                                },
                            },
                        }
                    }
                },
            }
        },
    }
}

/// The parse state after the given lines, in order; the first failing
/// line fails the parse.
pub open spec fn spec_run(ctx: ParseCtx, lines: Seq<Seq<u8>>) -> Result<ParseState, ParseError>
    decreases lines.len(),
{
    if lines.len() == 0 {
        Ok(
            ParseState {
                date: Option::None,
                header_url: Option::None,
                segments: Seq::empty(),
            },
        )
    } else {
        match spec_run(ctx, lines.drop_last()) {
            Err(e) => Err(e),
            Ok(st) => spec_step(ctx, st, lines.last()),
        }
    }
}

/// Once a prefix of the lines fails, the whole parse fails the same way.
proof fn lemma_run_error_sticky(ctx: ParseCtx, lines: Seq<Seq<u8>>, j: int)
    requires
        0 <= j <= lines.len(),
        spec_run(ctx, lines.subrange(0, j)) is Err,
    ensures
        spec_run(ctx, lines) == spec_run(ctx, lines.subrange(0, j)),
    decreases lines.len() - j,
{
    if j == lines.len() {
        assert(lines.subrange(0, j) =~= lines);
    } else {
        assert(lines.subrange(0, j + 1).drop_last() =~= lines.subrange(0, j));
        assert(spec_run(ctx, lines.subrange(0, j + 1)) == spec_run(ctx, lines.subrange(0, j)));
        lemma_run_error_sticky(ctx, lines, j + 1);
    }
}

/// What a parse yields: the whole playlist's candidate segments, in
/// playlist order, the session's output name, and the header URL still to
/// fetch.
pub open spec fn spec_parse(ctx: ParseCtx, text: Seq<u8>) -> Result<ParseOutputModel, ParseError> {
    match spec_run(ctx, lines_of(text)) {
        Err(e) => Err(e),
        Ok(st) => Ok(
            ParseOutputModel {
                segments: st.segments,
                output_name: match date_of(ctx, st) {
                    Option::Some(d) => Option::Some(spec_name(ctx.platform, ctx.username, d)),
                    Option::None => Option::None,
                },
                header_url: st.header_url,
            },
        ),
    }
}

/// The context model of a parse call's plain arguments.
pub open spec fn spec_ctx(
    platform: Platform,
    username: Seq<u8>,
    playlist_url: Seq<u8>,
    temp_dir: Seq<u8>,
    now_date: Seq<u8>,
    has_header: bool,
) -> ParseCtx {
    ParseCtx {
        platform,
        username,
        prefix: spec_url_prefix(playlist_url),
        temp_dir,
        now_date,
        has_header,
    }
}

/// Whether `p`'s playlists carry the timestamp themselves.
fn playlist_date_platform(p: &Platform) -> (r: bool)
    ensures
        r == uses_playlist_date(*p),
{
    match p {
        Platform::CB | Platform::SC | Platform::SCVR | Platform::SODA => true,
        Platform::MFC | Platform::BONGA => false,
    }
}

/// Whether `p`'s segments ride on a shared container header.
fn header_platform(p: &Platform) -> (r: bool)
    ensures
        r == uses_header(*p),
{
    match p {
        Platform::SC | Platform::SCVR | Platform::SODA => true,
        Platform::CB | Platform::MFC | Platform::BONGA => false,
    }
}

/// Extracts a line's timestamp, per `spec_time_of_line`.
fn time_of_line(line: &[u8]) -> (r: Result<Option<Vec<u8>>, ParseError>)
    ensures
        ({
            let s = spec_time_of_line(line@);
            match r {
                Result::Ok(Option::None) => s == Ok::<Option<Seq<u8>>, ParseError>(Option::None),
                Result::Ok(Option::Some(t)) => s == Ok::<Option<Seq<u8>>, ParseError>(Option::Some(t@)),
                Result::Err(e) => s == Err::<Option<Seq<u8>>, ParseError>(e),
            }
        }),
{
    proof {
        reveal_strlit("TIME");
    }
    let pat = str_bytes("TIME");
    match find_sub(line, pat.as_slice()) {
        Option::None => {
            proof {
                lemma_find_from_none(line@, ascii_seq("TIME"@), 0);
            }
            Ok(None)
        },
        Option::Some(n) => {
            proof {
                lemma_find_from_is(line@, ascii_seq("TIME"@), 0, n as int);
            }
            if line.len() >= 21 && n <= line.len() - 21 {
                let t = sanitize_time(slice_subrange(line, n + 7, n + 21));
                Ok(Some(t))
            } else {
                Err(ParseError::DateUnparsable)
            }
        },
    }
}

/// How long the digit run from `i` is, and that it is one.
proof fn lemma_digit_run_is(s: Seq<u8>, i: int, j: int)
    requires
        0 <= i <= j <= s.len(),
        forall|k: int| i <= k < j ==> is_digit(s[k]),
        j == s.len() || !is_digit(s[j]),
    ensures
        digit_run(s, i) == j - i,
    decreases j - i,
{
    if i < j {
        lemma_digit_run_is(s, i + 1, j);
    }
}

/// A first pattern match at `k` is what `soda_find` finds.
proof fn lemma_soda_find_is(line: Seq<u8>, i: int, k: int)
    requires
        0 <= i <= k < line.len(),
        soda_match(line, k),
        forall|j: int| i <= j < k ==> !soda_match(line, j),
    ensures
        soda_find(line, i) == Option::Some(k),
    decreases k - i,
{
    if i < k {
        lemma_soda_find_is(line, i + 1, k);
    }
}

/// Without any pattern match `soda_find` finds nothing.
proof fn lemma_soda_find_none(line: Seq<u8>, i: int)
    requires
        0 <= i,
        forall|j: int| i <= j < line.len() ==> !soda_match(line, j),
    ensures
        soda_find(line, i) is None,
    decreases line.len() - i,
{
    if i < line.len() {
        lemma_soda_find_none(line, i + 1);
    }
}

/// Finds the first fragment-id pattern match in a line.
fn soda_scan(line: &[u8]) -> (r: Option<usize>)
    ensures
        ({
            match r {
                Option::Some(i) => i < line@.len() && soda_find(line@, 0) == Option::Some(
                    i as int,
                ),
                Option::None => soda_find(line@, 0) is None,
            }
        }),
{
    proof {
        reveal_strlit(".llhls.mp4");
    }
    let pat = str_bytes(".llhls.mp4");
    let n = line.len();
    let mut i: usize = 0;
    while i < n
        invariant
            n == line@.len(),
            i <= n,
            pat@ == ascii_seq(".llhls.mp4"@),
            forall|j: int| 0 <= j < i ==> !soda_match(line@, j),
        decreases n - i,
    {
        if line[i] == '-' as u8 {
            let mut j: usize = i + 1;
            while j < n && line[j] >= 48 && line[j] <= 57
                invariant
                    n == line@.len(),
                    i + 1 <= j <= n,
                    forall|k: int| i + 1 <= k < j ==> is_digit(line@[k]),
                decreases n - j,
            {
                j = j + 1;
            }
            proof {
                lemma_digit_run_is(line@, i + 1, j as int);
            }
            let hit = if n - j >= pat.len() {
                crate::text::bytes_eq(slice_subrange(line, j, j + pat.len()), pat.as_slice())
            } else {
                false
            };
            if hit {
                proof {
                    assert(line@.subrange(j as int, j + pat@.len()) == ascii_seq(".llhls.mp4"@));
                    assert(soda_match(line@, i as int));
                    lemma_soda_find_is(line@, 0, i as int);
                }
                return Some(i);
            }
            proof {
                if occurs_at(line@, ascii_seq(".llhls.mp4"@), j as int) {
                    assert(line@.subrange(j as int, j + ascii_seq(".llhls.mp4"@).len() as int)
                        =~= ascii_seq(".llhls.mp4"@));
                }
                assert(!soda_match(line@, i as int));
            }
        } else {
            proof {
                assert(!soda_match(line@, i as int));
            }
        }
        i = i + 1;
    }
    proof {
        lemma_soda_find_none(line@, 0);
    }
    None
}

/// Extracts a line's segment id, per `spec_id_of_line`.
fn id_of_line(platform: &Platform, line: &[u8]) -> (r: Result<u32, ParseError>)
    ensures
        r == spec_id_of_line(*platform, line@),
{
    let n = line.len();
    match platform {
        Platform::CB | Platform::SC | Platform::SCVR => {
            let start: usize = match rfind_byte(line, '_' as u8) {
                Option::Some(k) => {
                    proof {
                        lemma_last_index_of_is(line@, '_' as u8, k as int);
                    }
                    k + 1
                },
                Option::None => {
                    proof {
                        lemma_last_index_of_none(line@, '_' as u8);
                    }
                    0
                },
            };
            let chunk = slice_subrange(line, start, n);
            proof {
                assert(chunk@ =~= line@.subrange(
                    last_index_of(line@, '_' as u8) + 1,
                    line@.len() as int,
                ));
            }
            match find_byte(chunk, '.' as u8) {
                Option::None => {
                    proof {
                        lemma_first_index_of_is(chunk@, '.' as u8, chunk@.len());
                    }
                    Err(ParseError::SegmentIdMissing)
                },
                Option::Some(d) => {
                    proof {
                        lemma_first_index_of_is(chunk@, '.' as u8, d as nat);
                    }
                    let idtxt = trim(slice_subrange(chunk, 0, d));
                    match parse_u32(idtxt.as_slice()) {
                        Option::Some(v) => Ok(v),
                        Option::None => Err(ParseError::SegmentIdUnparsable),
                    }
                },
            }
        },
        Platform::MFC => {
            let parts = split_byte(line, '.' as u8);
            proof {
                crate::text::lemma_split_at_byte_len(line@, '.' as u8);
                assert(parts@.len() == split_at_byte(line@, '.' as u8).len());
            }
            let idx = if parts.len() >= 2 {
                parts.len() - 2
            } else {
                0
            };
            proof {
                assert(parts@[idx as int]@ == split_at_byte(line@, '.' as u8)[idx as int]);
            }
            let digits = remove_non_num(parts[idx].as_slice());
            match parse_u32(digits.as_slice()) {
                Option::Some(v) => Ok(v),
                Option::None => Err(ParseError::SegmentIdUnparsable),
            }
        },
        Platform::BONGA => {
            let parts = split_byte(line, '_' as u8);
            proof {
                assert(parts@.len() == split_at_byte(line@, '_' as u8).len());
            }
            if parts.len() < 4 {
                Err(ParseError::SegmentIdMissing)
            } else {
                proof {
                    assert(parts@[3]@ == split_at_byte(line@, '_' as u8)[3]);
                }
                let digits = remove_non_num(parts[3].as_slice());
                match parse_u32(digits.as_slice()) {
                    Option::Some(v) => Ok(v),
                    Option::None => Err(ParseError::SegmentIdUnparsable),
                }
            }
        },
        Platform::SODA => {
            match soda_scan(line) {
                Option::None => Err(ParseError::SegmentIdMissing),
                Option::Some(i) => {
                    let mut j: usize = i + 1;
                    while j < n && line[j] >= 48 && line[j] <= 57
                        invariant
                            n == line@.len(),
                            i + 1 <= j <= n,
                            forall|k: int| i + 1 <= k < j ==> is_digit(line@[k]),
                        decreases n - j,
                    {
                        j = j + 1;
                    }
                    proof {
                        lemma_digit_run_is(line@, i + 1, j as int);
                    }
                    let digits = take_range(line, i + 1, j);
                    match parse_u32(digits.as_slice()) {
                        Option::Some(v) => Ok(v),
                        Option::None => Err(ParseError::SegmentIdUnparsable),
                    }
                },
            }
        },
    }
}

/// Builds a line's segment URL, per `spec_url_of_line`.
fn url_of_line(platform: &Platform, prefix: &Option<Vec<u8>>, line: &[u8]) -> (r: Result<
    Vec<u8>,
    ParseError,
>)
    ensures
        ({
            let s = spec_url_of_line(
                *platform,
                match prefix {
                    Option::Some(p) => Option::Some(p@),
                    Option::None => Option::<Seq<u8>>::None,
                },
                line@,
            );
            match r {
                Result::Ok(u) => s == Ok::<Seq<u8>, ParseError>(u@),
                Result::Err(e) => s == Err::<Seq<u8>, ParseError>(e),
            }
        }),
{
    match platform {
        Platform::CB | Platform::MFC | Platform::BONGA => {
            match prefix {
                Option::None => Err(ParseError::PrefixMissing),
                Option::Some(pre) => {
                    let mut url = clone_bytes(pre);
                    url.push('/' as u8);
                    crate::text::append_bytes(&mut url, line);
                    proof {
                        assert(url@ =~= pre@ + seq!['/' as u8] + line@);
                    }
                    Ok(url)
                },
            }
        },
        Platform::SC | Platform::SCVR | Platform::SODA => {
            let mut url = Vec::<u8>::new();
            crate::text::append_bytes(&mut url, line);
            proof {
                assert(url@ =~= line@);
            }
            Ok(url)
        },
    }
}

/// Extracts a line's header URL, per `spec_header_of_line`.
fn header_of_line(
    platform: &Platform,
    has_header: bool,
    already_found: bool,
    prefix: &Option<Vec<u8>>,
    line: &[u8],
) -> (r: Result<Option<Vec<u8>>, ParseError>)
    ensures
        ({
            let s = spec_header_of_line(
                *platform,
                has_header,
                already_found,
                match prefix {
                    Option::Some(p) => Option::Some(p@),
                    Option::None => Option::<Seq<u8>>::None,
                },
                line@,
            );
            match r {
                Result::Ok(Option::None) => s == Ok::<Option<Seq<u8>>, ParseError>(Option::None),
                Result::Ok(Option::Some(u)) => s == Ok::<Option<Seq<u8>>, ParseError>(Option::Some(u@)),
                Result::Err(e) => s == Err::<Option<Seq<u8>>, ParseError>(e),
            }
        }),
{
    proof {
        reveal_strlit("EXT-X-MAP:URI");
    }
    if !header_platform(platform) || has_header || already_found {
        return Ok(None);
    }
    let pat = str_bytes("EXT-X-MAP:URI");
    match find_sub(line, pat.as_slice()) {
        Option::None => {
            proof {
                lemma_find_from_none(line@, ascii_seq("EXT-X-MAP:URI"@), 0);
            }
            Ok(None)
        },
        Option::Some(at) => {
            proof {
                lemma_find_from_is(line@, ascii_seq("EXT-X-MAP:URI"@), 0, at as int);
            }
            let parts = split_byte(line, '"' as u8);
            proof {
                assert(parts@.len() == split_at_byte(line@, '"' as u8).len());
            }
            if parts.len() < 2 {
                Err(ParseError::HeaderUrlMissing)
            } else {
                proof {
                    assert(parts@[1]@ == split_at_byte(line@, '"' as u8)[1]);
                }
                match platform {
                    Platform::SODA => {
                        match prefix {
                            Option::None => Err(ParseError::PrefixMissing),
                            Option::Some(pre) => {
                                let mut url = clone_bytes(pre);
                                url.push('/' as u8);
                                crate::text::append_bytes(&mut url, parts[1].as_slice());
                                proof {
                                    assert(url@ =~= pre@ + seq!['/' as u8] + parts@[1]@);
                                }
                                Ok(Some(url))
                            },
                        }
                    },
                    _ => Ok(Some(clone_bytes(&parts[1]))),
                }
            }
        },
    }
}

/// Builds the session's output name.
fn build_name(platform: &Platform, username: &[u8], date: &[u8]) -> (r: Vec<u8>)
    ensures
        r@ == spec_name(*platform, username@, date@),
{
    proof {
        reveal_strlit("CB_");
        reveal_strlit("MFC_");
        reveal_strlit("SC_");
        reveal_strlit("SCVR_");
        reveal_strlit("BC_");
        reveal_strlit("CS_");
    }
    let mut v = match platform {
        Platform::CB => str_bytes("CB_"),
        Platform::MFC => str_bytes("MFC_"),
        Platform::SC => str_bytes("SC_"),
        Platform::SCVR => str_bytes("SCVR_"),
        Platform::BONGA => str_bytes("BC_"),
        Platform::SODA => str_bytes("CS_"),
    };
    crate::text::append_bytes(&mut v, username);
    v.push('_' as u8);
    crate::text::append_bytes(&mut v, date);
    proof {
        assert(v@ =~= spec_name(*platform, username@, date@));
    }
    v
}

/// Builds a segment's temp-file path.
fn build_seg_path(
    platform: &Platform,
    temp_dir: &[u8],
    username: &[u8],
    date: &[u8],
    id: u32,
) -> (r: Vec<u8>)
    ensures
        r@ == spec_seg_path(*platform, temp_dir@, username@, date@, id),
{
    proof {
        reveal_strlit("cb-");
        reveal_strlit("mfc-");
        reveal_strlit("sc-");
        reveal_strlit("scvr-");
        reveal_strlit("bc-");
        reveal_strlit("cs-");
        reveal_strlit(".ts");
        reveal_strlit(".mp4");
    }
    let mut v = Vec::<u8>::new();
    crate::text::append_bytes(&mut v, temp_dir);
    let tag = match platform {
        Platform::CB => str_bytes("cb-"),
        Platform::MFC => str_bytes("mfc-"),
        Platform::SC => str_bytes("sc-"),
        Platform::SCVR => str_bytes("scvr-"),
        Platform::BONGA => str_bytes("bc-"),
        Platform::SODA => str_bytes("cs-"),
    };
    crate::text::append_bytes(&mut v, tag.as_slice());
    crate::text::append_bytes(&mut v, username);
    v.push('-' as u8);
    crate::text::append_bytes(&mut v, date);
    v.push('-' as u8);
    let digits = u32_dec(id);
    crate::text::append_bytes(&mut v, digits.as_slice());
    let ext = match platform {
        Platform::CB | Platform::MFC | Platform::BONGA => str_bytes(".ts"),
        Platform::SC | Platform::SCVR | Platform::SODA => str_bytes(".mp4"),
    };
    crate::text::append_bytes(&mut v, ext.as_slice());
    proof {
        assert(v@ =~= spec_seg_path(*platform, temp_dir@, username@, date@, id));
    }
    v
}

/// The model of an optional byte string.
pub open spec fn opt_bytes(o: Option<Vec<u8>>) -> Option<Seq<u8>> {
    match o {
        Option::Some(v) => Option::Some(v@),
        Option::None => Option::None,
    }
}

/// What one parse hands back.
#[derive(Debug)]
pub struct ParseOutput {
    /// The candidate segments, in playlist order.
    pub segments: Vec<Segment>,
    /// The session's output name, when a timestamp was available.
    pub output_name: Option<Vec<u8>>,
    /// A header URL to fetch before the dispatched downloads run.
    pub header_url: Option<Vec<u8>>,
}

impl View for ParseOutput {
    type V = ParseOutputModel;

    open spec fn view(&self) -> ParseOutputModel {
        ParseOutputModel {
            segments: self.segments@.map_values(|s: Segment| s@),
            output_name: match self.output_name {
                Option::Some(ref n) => Option::Some(n@),
                Option::None => Option::None,
            },
            header_url: match self.header_url {
                Option::Some(ref h) => Option::Some(h@),
                Option::None => Option::None,
            },
        }
    }
}

} // verus!

verus! {

/// Parses one playlist snapshot into candidate segments.
///
/// The text is split into lines and each line folded through `spec_step`:
/// header declarations and timestamps are noted, comments and blanks
/// skipped, and every other line yields a candidate segment with its id,
/// source URL and temp-file path.  The result is exactly
/// `spec_parse` of the text: the candidates in playlist order, the
/// session's output name when a timestamp was available, and the header
/// URL still to fetch — or the first line's error.
pub fn parse_playlist(
    platform: &Platform,
    text: &[u8],
    username: &[u8],
    playlist_url: &[u8],
    temp_dir: &[u8],
    now_date: &[u8],
    has_header: bool,
) -> (r: Result<ParseOutput, ParseError>)
    ensures
        ({
            let ctx = spec_ctx(*platform, username@, playlist_url@, temp_dir@, now_date@, has_header);
            match r {
                Result::Ok(out) => spec_parse(ctx, text@) == Ok::<ParseOutputModel, ParseError>(out@),
                Result::Err(e) => spec_parse(ctx, text@) == Err::<ParseOutputModel, ParseError>(e),
            }
        }),
{
    let ghost ctx = spec_ctx(*platform, username@, playlist_url@, temp_dir@, now_date@, has_header);
    let n_url = playlist_url.len();
    let prefix: Option<Vec<u8>> = match rfind_byte(playlist_url, '/' as u8) {
        Option::Some(k) => {
            proof {
                lemma_last_index_of_is(playlist_url@, '/' as u8, k as int);
            }
            Some(take_range(playlist_url, 0, k))
        },
        Option::None => {
            proof {
                lemma_last_index_of_none(playlist_url@, '/' as u8);
            }
            None
        },
    };
    proof {
        assert(opt_bytes(prefix) == ctx.prefix);
    }
    let lines = split_lines(text);
    let ghost lmodels = lines@.map_values(|v: Vec<u8>| v@);
    let mut date: Option<Vec<u8>> = None;
    let mut header_url: Option<Vec<u8>> = None;
    let mut segments: Vec<Segment> = Vec::new();
    let mut i: usize = 0;
    proof {
        assert(lmodels.subrange(0, 0) =~= Seq::<Seq<u8>>::empty());
        assert(segments@.map_values(|s: Segment| s@) =~= Seq::<SegmentModel>::empty());
    }
    while i < lines.len()
        invariant
            i <= lines@.len(),
            lmodels == lines@.map_values(|v: Vec<u8>| v@),
            lmodels == lines_of(text@),
            ctx == spec_ctx(*platform, username@, playlist_url@, temp_dir@, now_date@, has_header),
            opt_bytes(prefix) == ctx.prefix,
            spec_run(ctx, lmodels.subrange(0, i as int)) == Ok::<ParseState, ParseError>(
                ParseState {
                    date: opt_bytes(date),
                    header_url: opt_bytes(header_url),
                    segments: segments@.map_values(|s: Segment| s@),
                },
            ),
        decreases lines@.len() - i,
    {
        let ghost st0 = ParseState {
            date: opt_bytes(date),
            header_url: opt_bytes(header_url),
            segments: segments@.map_values(|s: Segment| s@),
        };
        let line = &lines[i];
        proof {
            assert(line@ == lmodels[i as int]);
            assert(lmodels.subrange(0, i + 1).drop_last() =~= lmodels.subrange(0, i as int));
            assert(lmodels.subrange(0, i + 1).last() == lmodels[i as int]);
        }
        match header_of_line(platform, has_header, header_url.is_some(), &prefix, line.as_slice()) {
            Result::Err(e) => {
                proof {
                    assert(spec_run(ctx, lmodels.subrange(0, i + 1)) == Err::<
                        ParseState,
                        ParseError,
                    >(e));
                    lemma_run_error_sticky(ctx, lmodels, i + 1);
                }
                return Err(e);
            },
            Result::Ok(Option::Some(u)) => {
                header_url = Some(u);
            },
            Result::Ok(Option::None) => {},
        }
        let ghost st1 = ParseState { header_url: opt_bytes(header_url), ..st0 };
        if playlist_date_platform(platform) && date.is_none() {
            match time_of_line(line.as_slice()) {
                Result::Err(e) => {
                    proof {
                        assert(spec_step(ctx, st0, line@) == Err::<ParseState, ParseError>(e));
                        assert(spec_run(ctx, lmodels.subrange(0, i + 1)) == Err::<
                            ParseState,
                            ParseError,
                        >(e));
                        lemma_run_error_sticky(ctx, lmodels, i + 1);
                    }
                    return Err(e);
                },
                Result::Ok(Option::Some(t)) => {
                    date = Some(t);
                },
                Result::Ok(Option::None) => {},
            }
        }
        let ghost st2 = ParseState { date: opt_bytes(date), ..st1 };
        if line.len() == 0 || line[0] == '#' as u8 {
            proof {
                assert(spec_step(ctx, st0, line@) == Ok::<ParseState, ParseError>(st2));
            }
        } else {
            let url = match url_of_line(platform, &prefix, line.as_slice()) {
                Result::Ok(u) => u,
                Result::Err(e) => {
                    proof {
                        assert(spec_step(ctx, st0, line@) == Err::<ParseState, ParseError>(e));
                        lemma_run_error_sticky(ctx, lmodels, i + 1);
                    }
                    return Err(e);
                },
            };
            let id = match id_of_line(platform, line.as_slice()) {
                Result::Ok(v) => v,
                Result::Err(e) => {
                    proof {
                        assert(spec_step(ctx, st0, line@) == Err::<ParseState, ParseError>(e));
                        lemma_run_error_sticky(ctx, lmodels, i + 1);
                    }
                    return Err(e);
                },
            };
            let date_val: Vec<u8> = if playlist_date_platform(platform) {
                match &date {
                    Option::Some(d) => clone_bytes(d),
                    Option::None => {
                        proof {
                            assert(spec_step(ctx, st0, line@) == Err::<ParseState, ParseError>(
                                ParseError::DateMissing,
                            ));
                            lemma_run_error_sticky(ctx, lmodels, i + 1);
                        }
                        return Err(ParseError::DateMissing);
                    },
                }
            } else {
                let mut d = Vec::<u8>::new();
                crate::text::append_bytes(&mut d, now_date);
                proof {
                    assert(d@ =~= now_date@);
                }
                d
            };
            proof {
                assert(Option::Some(date_val@) == date_of(ctx, st2));
            }
            let path = build_seg_path(
                platform,
                temp_dir,
                username,
                date_val.as_slice(),
                id,
            );
            let with_header = header_platform(platform) && (has_header || header_url.is_some());
            let seg = Segment {
                sequence_id: id as u64,
                source_url: url,
                destination_path: path,
                with_header,
                downloaded: false,
            };
            let ghost segm = seg@;
            segments.push(seg);
            proof {
                assert(segments@.map_values(|s: Segment| s@) =~= st2.segments.push(segm));
                assert(spec_step(ctx, st0, line@) == Ok::<ParseState, ParseError>(
                    ParseState { segments: st2.segments.push(segm), ..st2 },
                ));
            }
        }
        proof {
            assert(spec_run(ctx, lmodels.subrange(0, i + 1)) == Ok::<ParseState, ParseError>(
                ParseState {
                    date: opt_bytes(date),
                    header_url: opt_bytes(header_url),
                    segments: segments@.map_values(|s: Segment| s@),
                },
            ));
        }
        i = i + 1;
    }
    proof {
        assert(lmodels.subrange(0, lines@.len() as int) =~= lmodels);
    }
    let output_name: Option<Vec<u8>> = if playlist_date_platform(platform) {
        match &date {
            Option::Some(d) => Some(build_name(platform, username, d.as_slice())),
            Option::None => None,
        }
    } else {
        Some(build_name(platform, username, now_date))
    };
    let out = ParseOutput { segments, output_name, header_url };
    proof {
        assert(spec_parse(ctx, text@) == Ok::<ParseOutputModel, ParseError>(out@));
    }
    Ok(out)
}

} // verus!
