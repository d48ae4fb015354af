//! The segment store of one recording session.
//!
//! Downloaded media chunks are kept in arrival order, one entry per accepted
//! sequence id.  A candidate whose id is not strictly greater than the newest
//! stored id is skipped, which drops duplicates and re-announced segments and
//! keeps the store strictly ascending by id.  At session end the store is
//! flattened, oldest first, for muxing.

use vstd::prelude::*;

verus! {

/// One downloaded (or in-flight) media chunk of a session.
#[derive(Debug)]
pub struct Segment {
    /// Order key parsed from the playlist line; not necessarily contiguous.
    pub sequence_id: u64,
    /// Where to fetch the chunk.
    pub source_url: Vec<u8>,
    /// Temp-file path for the downloaded bytes.
    pub destination_path: Vec<u8>,
    /// Whether the shared container header is prepended to the temp file.
    pub with_header: bool,
    /// Set once the download completed and the temp file was written;
    /// a segment that never completed is skipped by the muxer.
    pub downloaded: bool,
}

/// The mathematical value of a `Segment`.
pub ghost struct SegmentModel {
    pub sequence_id: u64,
    pub source_url: Seq<u8>,
    pub destination_path: Seq<u8>,
    pub with_header: bool,
    pub downloaded: bool,
}

impl View for Segment {
    type V = SegmentModel;

    open spec fn view(&self) -> SegmentModel {
        SegmentModel {
            sequence_id: self.sequence_id,
            source_url: self.source_url@,
            destination_path: self.destination_path@,
            with_header: self.with_header,
            downloaded: self.downloaded,
        }
    }
}

/// The sequence ids of a chain model, in stored order.
pub open spec fn ids_of(s: Seq<SegmentModel>) -> Seq<u64> {
    s.map_values(|m: SegmentModel| m.sequence_id)
}

/// Strictly ascending order.
pub open spec fn strictly_increasing(s: Seq<u64>) -> bool {
    forall|i: int, j: int| 0 <= i < j < s.len() ==> s[i] < s[j]
}

/// Whether a chain holding `s` accepts a candidate with id `id`:
/// the chain is empty, or `id` is strictly newer than the newest entry.
pub open spec fn accepts(s: Seq<SegmentModel>, id: u64) -> bool {
    s.len() == 0 || s.last().sequence_id < id
}

/// The ids a session keeps out of `ids`, fed in that order: each id is kept
/// exactly when it is strictly greater than the running maximum of the ids
/// kept so far.
pub open spec fn accepted_ids(ids: Seq<u64>) -> Seq<u64>
    decreases ids.len(),
{
    if ids.len() == 0 {
        Seq::empty()
    } else {
        let rest = accepted_ids(ids.drop_last());
        if rest.len() == 0 || rest.last() < ids.last() {
            rest.push(ids.last())
        } else {
            rest
        }
    }
}

/// Law: however the playlist re-orders or repeats segment ids, what the
/// session keeps is strictly ascending — duplicates and ids at or below the
/// running maximum are dropped.
pub proof fn lemma_accepted_ids_sorted(ids: Seq<u64>)
    ensures
        strictly_increasing(accepted_ids(ids)),
    decreases ids.len(),
{
    if ids.len() > 0 {
        lemma_accepted_ids_sorted(ids.drop_last());
    }
}

/// Law: flattening reconstructs exactly what was accepted — each kept id
/// appears exactly once, and every kept id was among those fed in.
pub proof fn lemma_flatten_reconstructs(ids: Seq<u64>)
    ensures
        accepted_ids(ids).no_duplicates(),
        forall|x: u64| accepted_ids(ids).contains(x) ==> ids.contains(x),
    decreases ids.len(),
{
    lemma_accepted_ids_sorted(ids);
    if ids.len() > 0 {
        lemma_flatten_reconstructs(ids.drop_last());
        assert forall|x: u64| accepted_ids(ids).contains(x) implies ids.contains(x) by {
            let rest = accepted_ids(ids.drop_last());
            if rest.contains(x) {
                assert(ids.drop_last().contains(x));
                let k = choose|k: int| 0 <= k < ids.drop_last().len() && ids.drop_last()[k] == x;
                assert(ids.drop_last()[k] == ids[k]);
                assert(ids[k] == x);
            } else {
                assert(accepted_ids(ids).last() == x);
                assert(ids.last() == x);
            }
        }
    }
}

/// The chain after offering it every candidate of `cs` in order, each
/// accepted or skipped by the rule of `accepts`.
pub open spec fn append_all(s: Seq<SegmentModel>, cs: Seq<SegmentModel>) -> Seq<SegmentModel>
    decreases cs.len(),
{
    if cs.len() == 0 {
        s
    } else {
        let s2 = append_all(s, cs.drop_last());
        if accepts(s2, cs.last().sequence_id) {
            s2.push(cs.last())
        } else {
            s2
        }
    }
}

/// The candidates of `cs` that a chain holding `s` accepts, in offer order.
pub open spec fn accepted_from(s: Seq<SegmentModel>, cs: Seq<SegmentModel>) -> Seq<SegmentModel>
    decreases cs.len(),
{
    if cs.len() == 0 {
        Seq::empty()
    } else {
        let a = accepted_from(s, cs.drop_last());
        if accepts(append_all(s, cs.drop_last()), cs.last().sequence_id) {
            a.push(cs.last())
        } else {
            a
        }
    }
}

/// Offering candidates appends exactly the accepted ones, in order, after
/// what was already stored.
pub proof fn lemma_append_all_is_accepted(s: Seq<SegmentModel>, cs: Seq<SegmentModel>)
    ensures
        append_all(s, cs) == s + accepted_from(s, cs),
    decreases cs.len(),
{
    if cs.len() == 0 {
        assert(s + accepted_from(s, cs) =~= s);
    } else {
        lemma_append_all_is_accepted(s, cs.drop_last());
        if accepts(append_all(s, cs.drop_last()), cs.last().sequence_id) {
            assert((s + accepted_from(s, cs.drop_last())).push(cs.last()) =~= s + accepted_from(
                s,
                cs,
            ).drop_last().push(cs.last()));
            assert(accepted_from(s, cs).drop_last().push(cs.last()) =~= accepted_from(s, cs));
        }
    }
}

/// A strictly ascending id sequence is kept whole when re-fed: nothing of
/// it is dropped.
pub proof fn lemma_accepted_ids_of_sorted(ids: Seq<u64>)
    requires
        strictly_increasing(ids),
    ensures
        accepted_ids(ids) == ids,
    decreases ids.len(),
{
    if ids.len() > 0 {
        lemma_accepted_ids_of_sorted(ids.drop_last());
        assert(accepted_ids(ids) =~= ids);
    }
}

/// Ids of a model sequence distribute over push.
proof fn lemma_ids_of_push(s: Seq<SegmentModel>, m: SegmentModel)
    ensures
        ids_of(s.push(m)) == ids_of(s).push(m.sequence_id),
{
    assert(ids_of(s.push(m)) =~= ids_of(s).push(m.sequence_id));
}

/// The machine meets the abstract law: feeding the candidates of `cs` into
/// a well-formed chain holding `s` leaves exactly the ids that the
/// running-maximum rule keeps out of the whole id history.
pub proof fn lemma_append_all_ids(s: Seq<SegmentModel>, cs: Seq<SegmentModel>)
    requires
        strictly_increasing(ids_of(s)),
    ensures
        ids_of(append_all(s, cs)) == accepted_ids(ids_of(s) + ids_of(cs)),
    decreases cs.len(),
{
    if cs.len() == 0 {
        assert(ids_of(s) + ids_of(cs) =~= ids_of(s));
        lemma_accepted_ids_of_sorted(ids_of(s));
    } else {
        lemma_append_all_ids(s, cs.drop_last());
        let s2 = append_all(s, cs.drop_last());
        let whole = ids_of(s) + ids_of(cs);
        assert(whole.drop_last() =~= ids_of(s) + ids_of(cs.drop_last()));
        assert(ids_of(cs.drop_last()) =~= ids_of(cs).drop_last());
        assert(whole.last() == cs.last().sequence_id);
        if ids_of(s2).len() == 0 {
            lemma_ids_of_push(s2, cs.last());
        } else {
            assert(ids_of(s2).last() == s2.last().sequence_id);
            if accepts(s2, cs.last().sequence_id) {
                lemma_ids_of_push(s2, cs.last());
            }
        }
    }
}

/// A copy of a segment.
pub fn clone_segment(seg: &Segment) -> (r: Segment)
    ensures
        r@ == seg@,
{
    Segment {
        sequence_id: seg.sequence_id,
        source_url: crate::text::clone_bytes(&seg.source_url),
        destination_path: crate::text::clone_bytes(&seg.destination_path),
        with_header: seg.with_header,
        downloaded: seg.downloaded,
    }
}

/// The ordered store of one session's segments.
///
/// The entries stand oldest first; their ids are strictly ascending
/// (`wf`), which `new` establishes and `append` preserves.
pub struct SegmentChain {
    segments: Vec<Segment>,
}

impl View for SegmentChain {
    type V = Seq<SegmentModel>;

    closed spec fn view(&self) -> Seq<SegmentModel> {
        self.segments@.map_values(|s: Segment| s@)
    }
}

impl SegmentChain {
    /// Strictly ascending sequence ids.
    pub open spec fn wf(&self) -> bool {
        strictly_increasing(ids_of(self@))
    }

    /// An empty chain.
    pub fn new() -> (r: SegmentChain)
        ensures
            r@ == Seq::<SegmentModel>::empty(),
            r.wf(),
    {
        let r = SegmentChain { segments: Vec::new() };
        proof {
            assert(r@ =~= Seq::<SegmentModel>::empty());
        }
        r
    }

    /// How many segments the chain holds.
    pub fn len(&self) -> (n: usize)
        ensures
            n == self@.len(),
    {
        self.segments.len()
    }

    /// The id of the newest entry, if any.
    pub fn last_id(&self) -> (r: Option<u64>)
        ensures
            self@.len() == 0 ==> r is None,
            self@.len() > 0 ==> r == Some(self@.last().sequence_id),
    {
        match self.segments.last() {
            Some(seg) => Some(seg.sequence_id),
            None => None,
        }
    }

    /// Appends a candidate if it is newer than everything stored; an id at
    /// or below the newest stored id is skipped, so the chain stays strictly
    /// ascending.
    pub fn append(&mut self, seg: Segment) -> (accepted: bool)
        requires
            old(self).wf(),
        ensures
            final(self).wf(),
            accepted == accepts(old(self)@, seg.sequence_id),
            accepted ==> final(self)@ == old(self)@.push(seg@),
            !accepted ==> final(self)@ == old(self)@,
    {
        let take = match self.segments.last() {
            Some(last) => last.sequence_id < seg.sequence_id,
            None => true,
        };
        if take {
            let ghost prev = self@;
            let ghost m = seg@;
            self.segments.push(seg);
            proof {
                assert(self@ =~= prev.push(m));
                assert forall|i: int, j: int|
                    0 <= i < j < ids_of(self@).len() implies ids_of(self@)[i] < ids_of(
                    self@,
                )[j] by {
                    if j < prev.len() {
                        assert(ids_of(prev)[i] < ids_of(prev)[j]);
                    } else {
                        assert(self@[j] == m);
                        if i < prev.len() as int - 1 {
                            assert(ids_of(prev)[i] < ids_of(prev)[prev.len() - 1]);
                        }
                    }
                }
            }
        }
        take
    }

    /// Marks the entry with id `id` (if present) as downloaded or not,
    /// leaving everything else unchanged.
    pub fn set_downloaded(&mut self, id: u64, ok: bool)
        requires
            old(self).wf(),
        ensures
            final(self).wf(),
            ids_of(final(self)@) == ids_of(old(self)@),
            forall|i: int|
                0 <= i < old(self)@.len() ==> final(self)@[i] == if old(
                    self,
                )@[i].sequence_id == id {
                    SegmentModel { downloaded: ok, ..old(self)@[i] }
                } else {
                    old(self)@[i]
                },
    {
        let ghost prev = self@;
        let n = self.segments.len();
        let mut i: usize = 0;
        while i < n
            invariant
                n == self.segments@.len(),
                i <= n,
                prev.len() == n,
                forall|k: int|
                    0 <= k < n ==> self@[k] == if k < i && prev[k].sequence_id == id {
                        SegmentModel { downloaded: ok, ..prev[k] }
                    } else {
                        prev[k]
                    },
            decreases n - i,
        {
            let ghost entry = self@;
            if self.segments[i].sequence_id == id {
                let ghost before = self.segments@;
                let mut seg = self.segments.remove(i);
                seg.downloaded = ok;
                let ghost segm = seg@;
                self.segments.insert(i, seg);
                proof {
                    assert(self.segments@ =~= before.update(i as int, self.segments@[i as int]));
                    assert(self@ =~= entry.update(i as int, segm));
                    assert(entry[i as int] == prev[i as int]);
                    assert(segm == SegmentModel { downloaded: ok, ..prev[i as int] });
                    assert forall|k: int|
                        0 <= k < n implies self@[k] == if k < i + 1 && prev[k].sequence_id == id {
                        SegmentModel { downloaded: ok, ..prev[k] }
                    } else {
                        prev[k]
                    } by {
                        if k != i {
                            assert(self@[k] == entry[k]);
                        }
                    }
                }
            } else {
                proof {
                    assert(entry[i as int] == prev[i as int]);
                }
            }
            i = i + 1;
        }
        proof {
            assert(ids_of(self@) =~= ids_of(prev));
        }
    }

    /// Consumes the chain and hands back its segments, oldest first —
    /// exactly the accepted segments, each once, in ascending id order.
    pub fn flatten(self) -> (r: Vec<Segment>)
        ensures
            r@.map_values(|s: Segment| s@) == self@,
    {
        self.segments
    }
}

} // verus!
