//! The per-session poll state machine: the heart of the pipeline.
//!
//! One `Session` tracks one live broadcast from discovery to muxing.  Each
//! poll cycle the caller fetches the playlist, parses it into candidate
//! segments, and feeds them in; the session applies the ordering rule,
//! decides which downloads to dispatch, counts idle cycles, and moves to
//! `Draining` on abort, fetch failure, or stall.  The caller performs the
//! network work and the sleeps between cycles; every decision is taken
//! here.

use vstd::prelude::*;

use crate::chain::accepted_from;
use crate::chain::append_all;
use crate::chain::clone_segment;
use crate::chain::ids_of;
use crate::chain::strictly_increasing;
use crate::chain::Segment;
use crate::chain::SegmentChain;
use crate::chain::SegmentModel;
use crate::platform::Platform;

verus! {

/// Bounded retries per HTTP request.
pub const RETRY_LIMIT: u32 = 5;

/// Fixed pause between retries of one request, in milliseconds.
pub const RETRY_BACKOFF_MS: u64 = 250;

/// Stagger between dispatching consecutive new segments of one cycle.
pub const DISPATCH_DELAY_MS: u64 = 500;

/// Pause between poll cycles.
pub const POLL_DELAY_MS: u64 = 1500;

/// Consecutive polls without a new segment before the session stalls out.
pub const MAX_IDLE_POLLS: u32 = 10;

/// A response body smaller than this is a transient CDN placeholder: the
/// segment is discarded rather than retried forever.
pub const MIN_SEGMENT_BYTES: usize = 10000;

/// Decisions of the bounded-retry request loop: a fixed number of
/// attempts, a fixed pause between them.
pub struct RetryPolicy {
    attempts_left: u32,
}

impl RetryPolicy {
    /// Attempts still allowed.
    pub closed spec fn attempts(&self) -> u32 {
        self.attempts_left
    }

    /// A policy with the default attempt budget.
    pub fn new() -> (r: RetryPolicy)
        ensures
            r.attempts() == RETRY_LIMIT,
    {
        RetryPolicy { attempts_left: RETRY_LIMIT }
    }

    /// A policy with `n` attempts; platform resolvers use a single one.
    pub fn with_attempts(n: u32) -> (r: RetryPolicy)
        ensures
            r.attempts() == n,
    {
        RetryPolicy { attempts_left: n }
    }

    /// Whether another attempt may be made.
    pub fn should_attempt(&self) -> (r: bool)
        ensures
            r <==> self.attempts() > 0,
    {
        self.attempts_left > 0
    }

    /// Records a failed attempt; `retry` says whether to try again after
    /// the backoff pause.
    pub fn record_failure(&mut self) -> (retry: bool)
        requires
            old(self).attempts() > 0,
        ensures
            final(self).attempts() == old(self).attempts() - 1,
            retry <==> final(self).attempts() > 0,
    {
        self.attempts_left = self.attempts_left - 1;
        self.attempts_left > 0
    }

    /// The pause before the next attempt, in milliseconds.
    pub fn backoff_ms(&self) -> (r: u64)
        ensures
            r == RETRY_BACKOFF_MS,
    {
        RETRY_BACKOFF_MS
    }
}

/// Whether a downloaded segment body is plausibly real media rather than a
/// transient placeholder response.
pub fn body_plausible(len: usize) -> (r: bool)
    ensures
        r <==> len >= MIN_SEGMENT_BYTES,
{
    len >= MIN_SEGMENT_BYTES
}

/// Where a session stands.
#[derive(Clone, Copy, PartialEq, Eq, Structural, Debug)]
pub enum Phase {
    /// The live loop: fetch, diff, dispatch.
    Polling,
    /// The loop has exited; the chain awaits muxing.
    Draining,
}

/// What one poll cycle did.
#[derive(Clone, Copy, PartialEq, Eq, Structural, Debug)]
pub enum PollStatus {
    /// The session was not polling; nothing changed.
    Ignored,
    /// Too many idle cycles; the session moved to `Draining`.
    Stalled,
    /// Candidates were processed; the session keeps polling.
    Dispatched,
}

/// The outcome of feeding one poll cycle's candidates in.
pub struct PollResult {
    /// What the cycle did.
    pub status: PollStatus,
    /// The accepted segments, in dispatch order: download each one.
    pub dispatch: Vec<Segment>,
}

/// One live-tracking-through-mux lifecycle for a single model on a single
/// platform.
pub struct Session {
    platform: Platform,
    username: Vec<u8>,
    playlist_url: Vec<u8>,
    chain: SegmentChain,
    phase: Phase,
    idle_polls: u32,
    aborted: bool,
    downloading: bool,
    header: Option<Vec<u8>>,
    output_name: Option<Vec<u8>>,
}

impl Session {
    /// The platform this session records from.
    pub closed spec fn platform_spec(&self) -> Platform {
        self.platform
    }

    /// The model's name; stable for the session's lifetime.
    pub closed spec fn username_spec(&self) -> Seq<u8> {
        self.username@
    }

    /// The resolved playlist URL.
    pub closed spec fn playlist_url_spec(&self) -> Seq<u8> {
        self.playlist_url@
    }

    /// The stored segments, oldest first.
    pub closed spec fn segments(&self) -> Seq<SegmentModel> {
        self.chain@
    }

    /// Where the session stands.
    pub closed spec fn phase_spec(&self) -> Phase {
        self.phase
    }

    /// Consecutive polls that dispatched nothing.
    pub closed spec fn idle_spec(&self) -> u32 {
        self.idle_polls
    }

    /// Whether abort was requested for this session.
    pub closed spec fn aborted_spec(&self) -> bool {
        self.aborted
    }

    /// Whether the registry sees this session as in flight.
    pub closed spec fn downloading_spec(&self) -> bool {
        self.downloading
    }

    /// The shared container header, once known.
    pub closed spec fn header_spec(&self) -> Option<Seq<u8>> {
        match self.header {
            Some(ref h) => Some(h@),
            None => None,
        }
    }

    /// The output file name (without extension), once known.
    pub closed spec fn output_name_spec(&self) -> Option<Seq<u8>> {
        match self.output_name {
            Some(ref n) => Some(n@),
            None => None,
        }
    }

    /// The chain's ids stay strictly ascending.
    pub open spec fn wf(&self) -> bool {
        strictly_increasing(ids_of(self.segments()))
    }

    /// A fresh session, polling, with nothing downloaded yet.
    pub fn new(platform: Platform, username: Vec<u8>, playlist_url: Vec<u8>) -> (r: Session)
        ensures
            r.wf(),
            r.platform_spec() == platform,
            r.username_spec() == username@,
            r.playlist_url_spec() == playlist_url@,
            r.segments() == Seq::<SegmentModel>::empty(),
            r.phase_spec() is Polling,
            r.idle_spec() == 0,
            !r.aborted_spec(),
            r.downloading_spec(),
            r.header_spec() is None,
            r.output_name_spec() is None,
    {
        Session {
            platform,
            username,
            playlist_url,
            chain: SegmentChain::new(),
            phase: Phase::Polling,
            idle_polls: 0,
            aborted: false,
            downloading: true,
            header: None,
            output_name: None,
        }
    }

    /// Whether the live loop should run another cycle: the session is
    /// polling and neither it nor the process was asked to abort.
    pub fn should_poll(&self, global_abort: bool) -> (r: bool)
        ensures
            r <==> (self.phase_spec() is Polling && !self.aborted_spec() && !global_abort),
    {
        match self.phase {
            Phase::Polling => !self.aborted && !global_abort,
            Phase::Draining => false,
        }
    }

    /// Requests abort for this session.  Asking twice changes nothing
    /// beyond asking once.
    pub fn abort(&mut self)
        ensures
            final(self).aborted_spec(),
            final(self).platform_spec() == old(self).platform_spec(),
            final(self).username_spec() == old(self).username_spec(),
            final(self).playlist_url_spec() == old(self).playlist_url_spec(),
            final(self).segments() == old(self).segments(),
            final(self).phase_spec() == old(self).phase_spec(),
            final(self).idle_spec() == old(self).idle_spec(),
            final(self).downloading_spec() == old(self).downloading_spec(),
            final(self).header_spec() == old(self).header_spec(),
            final(self).output_name_spec() == old(self).output_name_spec(),
    {
        self.aborted = true;
    }

    /// Ends the live loop: the session stops counting as downloading and
    /// awaits muxing.  Called when the loop exits — on abort, on a failed
    /// playlist fetch, or after a stall.
    pub fn finish_polling(&mut self)
        ensures
            final(self).phase_spec() is Draining,
            !final(self).downloading_spec(),
            final(self).platform_spec() == old(self).platform_spec(),
            final(self).username_spec() == old(self).username_spec(),
            final(self).playlist_url_spec() == old(self).playlist_url_spec(),
            final(self).segments() == old(self).segments(),
            final(self).idle_spec() == old(self).idle_spec(),
            final(self).aborted_spec() == old(self).aborted_spec(),
            final(self).header_spec() == old(self).header_spec(),
            final(self).output_name_spec() == old(self).output_name_spec(),
    {
        self.phase = Phase::Draining;
        self.downloading = false;
    }

    /// Feeds in one poll cycle's parsed candidates, in playlist order.
    ///
    /// A session no longer polling ignores the cycle entirely.  A polling
    /// session first pays for the cycle: after `MAX_IDLE_POLLS` cycles
    /// without a new segment it stalls out into `Draining` and dispatches
    /// nothing.  Otherwise each candidate in order is appended exactly when
    /// its id is strictly newer than everything stored, and the accepted
    /// ones come back as the downloads to dispatch; any acceptance resets
    /// the idle count.
    pub fn on_poll(&mut self, candidates: Vec<Segment>) -> (r: PollResult)
        requires
            old(self).wf(),
        ensures
            final(self).wf(),
            final(self).platform_spec() == old(self).platform_spec(),
            final(self).username_spec() == old(self).username_spec(),
            final(self).playlist_url_spec() == old(self).playlist_url_spec(),
            final(self).aborted_spec() == old(self).aborted_spec(),
            final(self).header_spec() == old(self).header_spec(),
            final(self).output_name_spec() == old(self).output_name_spec(),
            !(old(self).phase_spec() is Polling) ==> {
                &&& r.status is Ignored
                &&& r.dispatch@.len() == 0
                &&& *final(self) == *old(self)
            },
            old(self).phase_spec() is Polling && old(self).idle_spec() >= MAX_IDLE_POLLS ==> {
                &&& r.status is Stalled
                &&& r.dispatch@.len() == 0
                &&& final(self).phase_spec() is Draining
                &&& !final(self).downloading_spec()
                &&& final(self).segments() == old(self).segments()
                &&& final(self).idle_spec() == old(self).idle_spec()
            },
            old(self).phase_spec() is Polling && old(self).idle_spec() < MAX_IDLE_POLLS ==> {
                let cs = candidates@.map_values(|s: Segment| s@);
                let taken = accepted_from(old(self).segments(), cs);
                &&& r.status is Dispatched
                &&& final(self).segments() == append_all(old(self).segments(), cs)
                &&& r.dispatch@.map_values(|s: Segment| s@) == taken
                &&& final(self).idle_spec() == if taken.len() > 0 {
                    0int
                } else {
                    old(self).idle_spec() + 1
                }
                &&& final(self).phase_spec() is Polling
                &&& final(self).downloading_spec() == old(self).downloading_spec()
            },
    {
        match self.phase {
            Phase::Draining => PollResult { status: PollStatus::Ignored, dispatch: Vec::new() },
            Phase::Polling => {
                if self.idle_polls >= MAX_IDLE_POLLS {
                    self.phase = Phase::Draining;
                    self.downloading = false;
                    PollResult { status: PollStatus::Stalled, dispatch: Vec::new() }
                } else {
                    let ghost base = self.chain@;
                    let ghost cs = candidates@.map_values(|s: Segment| s@);
                    let mut dispatch: Vec<Segment> = Vec::new();
                    let n = candidates.len();
                    let mut i: usize = 0;
                    proof {
                        assert(cs.subrange(0, 0) =~= Seq::<SegmentModel>::empty());
                        assert(dispatch@.map_values(|s: Segment| s@) =~= Seq::<
                            SegmentModel,
                        >::empty());
                    }
                    while i < n
                        invariant
                            n == candidates@.len(),
                            i <= n,
                            cs == candidates@.map_values(|s: Segment| s@),
                            self.chain.wf(),
                            self.chain@ == append_all(base, cs.subrange(0, i as int)),
                            dispatch@.map_values(|s: Segment| s@) == accepted_from(
                                base,
                                cs.subrange(0, i as int),
                            ),
                            self.platform == old(self).platform,
                            self.username == old(self).username,
                            self.playlist_url == old(self).playlist_url,
                            self.phase == Phase::Polling,
                            self.idle_polls == old(self).idle_polls,
                            self.aborted == old(self).aborted,
                            self.downloading == old(self).downloading,
                            self.header == old(self).header,
                            self.output_name == old(self).output_name,
                        decreases n - i,
                    {
                        let ghost pre = cs.subrange(0, i as int);
                        let ghost post = cs.subrange(0, i + 1);
                        proof {
                            assert(post.drop_last() =~= pre);
                            assert(post.last() == cs[i as int]);
                            assert(cs[i as int] == candidates@[i as int]@);
                        }
                        let seg = clone_segment(&candidates[i]);
                        let accepted = self.chain.append(seg);
                        if accepted {
                            dispatch.push(clone_segment(&candidates[i]));
                            proof {
                                assert(dispatch@.map_values(|s: Segment| s@) =~= accepted_from(
                                    base,
                                    pre,
                                ).push(cs[i as int]));
                            }
                        }
                        i = i + 1;
                    }
                    proof {
                        assert(cs.subrange(0, n as int) =~= cs);
                    }
                    let any = dispatch.len() > 0;
                    if any {
                        self.idle_polls = 0;
                    } else {
                        self.idle_polls = self.idle_polls + 1;
                    }
                    proof {
                        let taken = accepted_from(base, cs);
                        assert(taken.len() == dispatch@.map_values(|s: Segment| s@).len());
                    }
                    PollResult { status: PollStatus::Dispatched, dispatch }
                }
            },
        }
    }

    /// Records the outcome of one segment's download worker: the entry
    /// with that id (if still tracked) is marked downloaded or not.
    pub fn on_download(&mut self, id: u64, ok: bool)
        requires
            old(self).wf(),
        ensures
            final(self).wf(),
            ids_of(final(self).segments()) == ids_of(old(self).segments()),
            forall|i: int|
                0 <= i < old(self).segments().len() ==> final(self).segments()[i] == if old(
                    self,
                ).segments()[i].sequence_id == id {
                    SegmentModel { downloaded: ok, ..old(self).segments()[i] }
                } else {
                    old(self).segments()[i]
                },
            final(self).platform_spec() == old(self).platform_spec(),
            final(self).username_spec() == old(self).username_spec(),
            final(self).playlist_url_spec() == old(self).playlist_url_spec(),
            final(self).phase_spec() == old(self).phase_spec(),
            final(self).idle_spec() == old(self).idle_spec(),
            final(self).aborted_spec() == old(self).aborted_spec(),
            final(self).downloading_spec() == old(self).downloading_spec(),
            final(self).header_spec() == old(self).header_spec(),
            final(self).output_name_spec() == old(self).output_name_spec(),
    {
        self.chain.set_downloaded(id, ok);
    }

    /// Stores the shared container header once; later offers are ignored.
    pub fn offer_header(&mut self, header: Vec<u8>)
        ensures
            old(self).header_spec() is None ==> final(self).header_spec() == Some(header@),
            old(self).header_spec() is Some ==> final(self).header_spec() == old(
                self,
            ).header_spec(),
            final(self).platform_spec() == old(self).platform_spec(),
            final(self).username_spec() == old(self).username_spec(),
            final(self).playlist_url_spec() == old(self).playlist_url_spec(),
            final(self).segments() == old(self).segments(),
            final(self).phase_spec() == old(self).phase_spec(),
            final(self).idle_spec() == old(self).idle_spec(),
            final(self).aborted_spec() == old(self).aborted_spec(),
            final(self).downloading_spec() == old(self).downloading_spec(),
            final(self).output_name_spec() == old(self).output_name_spec(),
    {
        if self.header.is_none() {
            self.header = Some(header);
        }
    }

    /// Whether the shared container header is already known.
    pub fn has_header(&self) -> (r: bool)
        ensures
            r <==> self.header_spec() is Some,
    {
        self.header.is_some()
    }

    /// A copy of the shared container header, if known.
    pub fn header_bytes(&self) -> (r: Option<Vec<u8>>)
        ensures
            r matches Some(h) ==> self.header_spec() == Some(h@),
            r is None <==> self.header_spec() is None,
    {
        match &self.header {
            Some(h) => Some(crate::text::clone_bytes(h)),
            None => None,
        }
    }

    /// Fixes the output file name the first time one is offered; the name
    /// of the first parsed cycle wins.
    pub fn offer_output_name(&mut self, name: Vec<u8>)
        ensures
            old(self).output_name_spec() is None ==> final(self).output_name_spec() == Some(name@),
            old(self).output_name_spec() is Some ==> final(self).output_name_spec() == old(
                self,
            ).output_name_spec(),
            final(self).platform_spec() == old(self).platform_spec(),
            final(self).username_spec() == old(self).username_spec(),
            final(self).playlist_url_spec() == old(self).playlist_url_spec(),
            final(self).segments() == old(self).segments(),
            final(self).phase_spec() == old(self).phase_spec(),
            final(self).idle_spec() == old(self).idle_spec(),
            final(self).aborted_spec() == old(self).aborted_spec(),
            final(self).downloading_spec() == old(self).downloading_spec(),
            final(self).header_spec() == old(self).header_spec(),
    {
        if self.output_name.is_none() {
            self.output_name = Some(name);
        }
    }

    /// A copy of the output file name, if fixed.
    pub fn output_name(&self) -> (r: Option<Vec<u8>>)
        ensures
            r matches Some(v) ==> self.output_name_spec() == Some(v@),
            r is None <==> self.output_name_spec() is None,
    {
        match &self.output_name {
            Some(n) => Some(crate::text::clone_bytes(n)),
            None => None,
        }
    }

    /// Whether this session still counts as downloading.
    pub fn is_downloading(&self) -> (r: bool)
        ensures
            r == self.downloading_spec(),
    {
        self.downloading
    }

    /// The newest stored sequence id, if any.
    pub fn last_id(&self) -> (r: Option<u64>)
        ensures
            self.segments().len() == 0 ==> r is None,
            self.segments().len() > 0 ==> r == Some(self.segments().last().sequence_id),
    {
        self.chain.last_id()
    }

    /// Hands the finished session's segments over for muxing, oldest
    /// first, strictly ascending by id.
    pub fn drain(self) -> (r: Vec<Segment>)
        requires
            self.phase_spec() is Draining,
            self.wf(),
        ensures
            r@.map_values(|s: Segment| s@) == self.segments(),
            strictly_increasing(ids_of(r@.map_values(|s: Segment| s@))),
    {
        self.chain.flatten()
    }
}

} // verus!
