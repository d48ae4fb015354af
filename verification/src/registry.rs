//! The model registry: one tracked entry per configured model.
//!
//! The registry owns the set of models being watched.  Periodically each
//! model is probed: if it is online and has no session in flight, a new
//! session is started.  When the configuration is reloaded, the tracked
//! set is reconciled against it: models that left the configuration are
//! removed at once, their abort flag set, and handed back so their
//! running session can finish detached; models that joined are added
//! fresh.  The probing, the threads and the configuration file live
//! outside; the decisions live here.

use vstd::prelude::*;

use crate::platform::spec_key;
use crate::platform::Platform;
use crate::text::bytes_eq;
use crate::text::clone_bytes;
use crate::text::str_bytes;

verus! {

/// The mathematical value of a tracked model.
pub ghost struct ModelModel {
    pub platform: Platform,
    pub username: Seq<u8>,
    pub downloading: bool,
    pub playlist_link: Option<Seq<u8>>,
    pub aborted: bool,
}

/// Whether two entries track the same model: same platform, same name.
pub open spec fn same_key(a: ModelModel, b: ModelModel) -> bool {
    a.platform == b.platform && a.username == b.username
}

/// Whether `s` holds an entry with `m`'s key.
pub open spec fn has_key(s: Seq<ModelModel>, m: ModelModel) -> bool {
    exists|i: int| 0 <= i < s.len() && same_key(s[i], m)
}

/// One tracked model.
pub struct Model {
    platform: Platform,
    username: Vec<u8>,
    downloading: bool,
    playlist_link: Option<Vec<u8>>,
    aborted: bool,
}

impl View for Model {
    type V = ModelModel;

    closed spec fn view(&self) -> ModelModel {
        ModelModel {
            platform: self.platform,
            username: self.username@,
            downloading: self.downloading,
            playlist_link: match self.playlist_link {
                Option::Some(ref l) => Option::Some(l@),
                Option::None => Option::None,
            },
            aborted: self.aborted,
        }
    }
}

/// What probing a model does to it: a model with a session in flight is
/// left alone; otherwise the probe's playlist link is stored, and a new
/// session starts exactly when the model is online.
pub open spec fn download_decision(m: ModelModel, link: Option<Seq<u8>>) -> (ModelModel, bool) {
    if m.downloading {
        (m, false)
    } else {
        (
            ModelModel { playlist_link: link, downloading: link is Some, ..m },
            link is Some,
        )
    }
}

impl Model {
    /// A fresh tracked model: no session, no link, not aborted.
    pub fn new(platform: Platform, username: Vec<u8>) -> (r: Model)
        ensures
            r@ == (ModelModel {
                platform,
                username: username@,
                downloading: false,
                playlist_link: Option::None,
                aborted: false,
            }),
    {
        Model { platform, username, downloading: false, playlist_link: None, aborted: false }
    }

    /// The registry key: the platform's configuration key, a colon, and
    /// the model's name.
    pub fn composite_key(&self) -> (r: Vec<u8>)
        ensures
            r@ == spec_key(self@.platform) + seq![':' as u8] + self@.username,
    {
        proof {
            reveal_strlit("CB");
            reveal_strlit("MFC");
            reveal_strlit("SC");
            reveal_strlit("SCVR");
            reveal_strlit("BONGA");
            reveal_strlit("SODA");
        }
        let mut r = match self.platform {
            Platform::CB => str_bytes("CB"),
            Platform::MFC => str_bytes("MFC"),
            Platform::SC => str_bytes("SC"),
            Platform::SCVR => str_bytes("SCVR"),
            Platform::BONGA => str_bytes("BONGA"),
            Platform::SODA => str_bytes("SODA"),
        };
        proof {
            assert(r@ =~= spec_key(self@.platform));
        }
        r.push(':' as u8);
        crate::text::append_bytes(&mut r, self.username.as_slice());
        proof {
            assert(r@ =~= spec_key(self@.platform) + seq![':' as u8] + self@.username);
        }
        r
    }

    /// The platform this model is tracked on.
    pub fn platform(&self) -> (r: Platform)
        ensures
            r == self@.platform,
    {
        self.platform
    }

    /// The model's name.
    pub fn username(&self) -> (r: &Vec<u8>)
        ensures
            r@ == self@.username,
    {
        &self.username
    }

    /// Whether a session is in flight for this model.
    pub fn is_downloading(&self) -> (r: bool)
        ensures
            r == self@.downloading,
    {
        self.downloading
    }

    /// Whether this model was asked to abort.
    pub fn is_aborted(&self) -> (r: bool)
        ensures
            r == self@.aborted,
    {
        self.aborted
    }

    /// A copy of the model's resolved playlist link, if it is online.
    pub fn playlist_link(&self) -> (r: Option<Vec<u8>>)
        ensures
            r matches Option::Some(l) ==> self@.playlist_link == Option::Some(l@),
            r is None <==> self@.playlist_link is None,
    {
        match &self.playlist_link {
            Option::Some(l) => Some(clone_bytes(l)),
            Option::None => None,
        }
    }

    /// Applies one probe: `link` is the freshly resolved playlist URL, or
    /// `None` when the model is offline.  Returns whether to start a new
    /// session.
    pub fn download(&mut self, link: Option<Vec<u8>>) -> (start: bool)
        ensures
            ({
                let d = download_decision(
                    old(self)@,
                    match link {
                        Option::Some(l) => Option::Some(l@),
                        Option::None => Option::<Seq<u8>>::None,
                    },
                );
                final(self)@ == d.0 && start == d.1
            }),
    {
        if self.downloading {
            false
        } else {
            let start = link.is_some();
            self.playlist_link = link;
            self.downloading = start;
            start
        }
    }

    /// Records that this model's session ended, so a fresh one may start.
    pub fn on_session_end(&mut self)
        ensures
            final(self)@ == (ModelModel { downloading: false, ..old(self)@ }),
    {
        self.downloading = false;
    }

    /// Requests abort for this model's session.  Asking twice changes
    /// nothing beyond asking once.
    pub fn abort(&mut self)
        ensures
            final(self)@ == (ModelModel { aborted: true, ..old(self)@ }),
    {
        self.aborted = true;
    }
}

/// A copy of a tracked model.
fn clone_model(m: &Model) -> (r: Model)
    ensures
        r@ == m@,
{
    Model {
        platform: m.platform,
        username: clone_bytes(&m.username),
        downloading: m.downloading,
        playlist_link: match &m.playlist_link {
            Option::Some(l) => Some(clone_bytes(l)),
            Option::None => None,
        },
        aborted: m.aborted,
    }
}

/// The entries of `s` whose key the new configuration `t` still names,
/// in their old order and state.
pub open spec fn retained_models(s: Seq<ModelModel>, t: Seq<ModelModel>) -> Seq<ModelModel>
    decreases s.len(),
{
    if s.len() == 0 {
        Seq::empty()
    } else {
        let r = retained_models(s.drop_last(), t);
        if has_key(t, s.last()) {
            r.push(s.last())
        } else {
            r
        }
    }
}

/// The entries of `s` that the new configuration `t` no longer names,
/// each with its abort flag set, in their old order.
pub open spec fn dropped_models(s: Seq<ModelModel>, t: Seq<ModelModel>) -> Seq<ModelModel>
    decreases s.len(),
{
    if s.len() == 0 {
        Seq::empty()
    } else {
        let r = dropped_models(s.drop_last(), t);
        if has_key(t, s.last()) {
            r
        } else {
            r.push(ModelModel { aborted: true, ..s.last() })
        }
    }
}

/// The entries of the new configuration `t` whose key `s` does not track
/// yet, in configuration order.
pub open spec fn added_models(t: Seq<ModelModel>, s: Seq<ModelModel>) -> Seq<ModelModel>
    decreases t.len(),
{
    if t.len() == 0 {
        Seq::empty()
    } else {
        let r = added_models(t.drop_last(), s);
        if has_key(s, t.last()) {
            r
        } else {
            r.push(t.last())
        }
    }
}

/// Pairwise distinct keys.
pub open spec fn unique_keys(s: Seq<ModelModel>) -> bool {
    forall|i: int, j: int| 0 <= i < j < s.len() ==> !same_key(s[i], s[j])
}

/// Every entry the retention keeps comes from `s`, under the same key.
proof fn lemma_retained_sub(s: Seq<ModelModel>, t: Seq<ModelModel>)
    ensures
        forall|i: int|
            0 <= i < retained_models(s, t).len() ==> has_key(s, retained_models(s, t)[i])
                && has_key(t, retained_models(s, t)[i]),
        unique_keys(s) ==> unique_keys(retained_models(s, t)),
    decreases s.len(),
{
    if s.len() > 0 {
        lemma_retained_sub(s.drop_last(), t);
        assert forall|i: int|
            0 <= i < retained_models(s, t).len() implies has_key(s, retained_models(s, t)[i])
            && has_key(t, retained_models(s, t)[i]) by {
            let r = retained_models(s.drop_last(), t);
            if i < r.len() {
                assert(has_key(s.drop_last(), r[i]));
                let w = choose|k: int|
                    0 <= k < s.drop_last().len() && same_key(s.drop_last()[k], r[i]);
                assert(same_key(s[w], r[i]));
            } else {
                assert(same_key(s[s.len() - 1], retained_models(s, t)[i]));
            }
        }
        if unique_keys(s) {
            assert(unique_keys(s.drop_last()));
            if has_key(t, s.last()) {
                let r = retained_models(s.drop_last(), t);
                assert forall|i: int, j: int|
                    0 <= i < j < retained_models(s, t).len() implies !same_key(
                    retained_models(s, t)[i],
                    retained_models(s, t)[j],
                ) by {
                    if j < r.len() {
                    } else {
                        assert(has_key(s.drop_last(), r[i]));
                        let w = choose|k: int|
                            0 <= k < s.drop_last().len() && same_key(s.drop_last()[k], r[i]);
                        if same_key(retained_models(s, t)[i], retained_models(s, t)[j]) {
                            assert(same_key(s[w], s[s.len() - 1]));
                        }
                    }
                }
            }
        }
    }
}

/// Every entry the addition brings comes from `t` and is new to `s`.
proof fn lemma_added_sub(t: Seq<ModelModel>, s: Seq<ModelModel>)
    ensures
        forall|i: int|
            0 <= i < added_models(t, s).len() ==> has_key(t, added_models(t, s)[i]) && !has_key(
                s,
                added_models(t, s)[i],
            ),
        unique_keys(t) ==> unique_keys(added_models(t, s)),
    decreases t.len(),
{
    if t.len() > 0 {
        lemma_added_sub(t.drop_last(), s);
        assert forall|i: int|
            0 <= i < added_models(t, s).len() implies has_key(t, added_models(t, s)[i]) && !has_key(
            s,
            added_models(t, s)[i],
        ) by {
            let r = added_models(t.drop_last(), s);
            if i < r.len() {
                assert(has_key(t.drop_last(), r[i]));
                let w = choose|k: int|
                    0 <= k < t.drop_last().len() && same_key(t.drop_last()[k], r[i]);
                assert(same_key(t[w], r[i]));
            } else {
                assert(same_key(t[t.len() - 1], added_models(t, s)[i]));
            }
        }
        if unique_keys(t) {
            assert(unique_keys(t.drop_last()));
            if !has_key(s, t.last()) {
                let r = added_models(t.drop_last(), s);
                assert forall|i: int, j: int|
                    0 <= i < j < added_models(t, s).len() implies !same_key(
                    added_models(t, s)[i],
                    added_models(t, s)[j],
                ) by {
                    if j < r.len() {
                    } else {
                        assert(has_key(t.drop_last(), r[i]));
                        let w = choose|k: int|
                            0 <= k < t.drop_last().len() && same_key(t.drop_last()[k], r[i]);
                        if same_key(added_models(t, s)[i], added_models(t, s)[j]) {
                            assert(same_key(t[w], t[t.len() - 1]));
                        }
                    }
                }
            }
        }
    }
}

/// The registry of tracked models, keyed by platform and name, each key
/// held once.
pub struct Models {
    entries: Vec<Model>,
}

impl View for Models {
    type V = Seq<ModelModel>;

    closed spec fn view(&self) -> Seq<ModelModel> {
        self.entries@.map_values(|m: Model| m@)
    }
}

impl Models {
    /// Keys are pairwise distinct.
    pub open spec fn wf(&self) -> bool {
        unique_keys(self@)
    }

    /// An empty registry.
    pub fn new() -> (r: Models)
        ensures
            r@ == Seq::<ModelModel>::empty(),
            r.wf(),
    {
        let r = Models { entries: Vec::new() };
        proof {
            assert(r@ =~= Seq::<ModelModel>::empty());
        }
        r
    }

    /// How many models are tracked.
    pub fn len(&self) -> (n: usize)
        ensures
            n == self@.len(),
    {
        self.entries.len()
    }

    /// Whether an entry with `m`'s key is tracked.
    pub fn contains_key(&self, m: &Model) -> (r: bool)
        ensures
            r == has_key(self@, m@),
    {
        let mut i: usize = 0;
        while i < self.entries.len()
            invariant
                i <= self@.len(),
                self@.len() == self.entries@.len(),
                forall|j: int| 0 <= j < i ==> !same_key(self@[j], m@),
        decreases self@.len() - i,
        {
            let e = &self.entries[i];
            let mut same = false;
            match (&e.platform, &m.platform) {
                (Platform::CB, Platform::CB) => same = true,
                (Platform::MFC, Platform::MFC) => same = true,
                (Platform::SC, Platform::SC) => same = true,
                (Platform::SCVR, Platform::SCVR) => same = true,
                (Platform::BONGA, Platform::BONGA) => same = true,
                (Platform::SODA, Platform::SODA) => same = true,
                _ => same = false,
            }
            if same && bytes_eq(e.username.as_slice(), m.username.as_slice()) {
                proof {
                    assert(same_key(self@[i as int], m@));
                }
                return true;
            }
            proof {
                assert(!same_key(self@[i as int], m@));
            }
            i = i + 1;
        }
        false
    }

    /// Tracks a model, unless its key is already tracked.
    pub fn add(&mut self, model: Model) -> (added: bool)
        requires
            old(self).wf(),
        ensures
            final(self).wf(),
            added == !has_key(old(self)@, model@),
            added ==> final(self)@ == old(self)@.push(model@),
            !added ==> final(self)@ == old(self)@,
    {
        if self.contains_key(&model) {
            false
        } else {
            let ghost prev = self@;
            let ghost mm = model@;
            self.entries.push(model);
            proof {
                assert(self@ =~= prev.push(mm));
                assert forall|i: int, j: int| 0 <= i < j < self@.len() implies !same_key(
                    self@[i],
                    self@[j],
                ) by {
                    if j == self@.len() - 1 {
                        if same_key(self@[i], self@[j]) {
                            assert(has_key(prev, mm));
                        }
                    }
                }
            }
            true
        }
    }

    /// Applies one probe to the model at `i`; see `Model::download`.
    pub fn download_step(&mut self, i: usize, link: Option<Vec<u8>>) -> (start: bool)
        requires
            old(self).wf(),
            i < old(self)@.len(),
        ensures
            final(self).wf(),
            ({
                let d = download_decision(
                    old(self)@[i as int],
                    match link {
                        Option::Some(l) => Option::Some(l@),
                        Option::None => Option::<Seq<u8>>::None,
                    },
                );
                final(self)@ == old(self)@.update(i as int, d.0) && start == d.1
            }),
    {
        let ghost prev = self@;
        let mut m = self.entries.remove(i);
        let start = m.download(link);
        let ghost mm = m@;
        self.entries.insert(i, m);
        proof {
            assert(self.entries@ =~= old(self).entries@.update(i as int, self.entries@[i as int]));
            assert(self@ =~= prev.update(i as int, mm));
            assert forall|a: int, b: int| 0 <= a < b < self@.len() implies !same_key(
                self@[a],
                self@[b],
            ) by {
                assert(same_key(self@[a], prev[a]));
                assert(same_key(self@[b], prev[b]));
            }
        }
        start
    }

    /// A copy of the playlist link of the model at `i`.
    pub fn playlist_link_at(&self, i: usize) -> (r: Option<Vec<u8>>)
        requires
            i < self@.len(),
        ensures
            r matches Option::Some(l) ==> self@[i as int].playlist_link == Option::Some(l@),
            r is None <==> self@[i as int].playlist_link is None,
    {
        self.entries[i].playlist_link()
    }

    /// The platform and a copy of the name of the model at `i`.
    pub fn model_id_at(&self, i: usize) -> (r: (Platform, Vec<u8>))
        requires
            i < self@.len(),
        ensures
            r.0 == self@[i as int].platform,
            r.1@ == self@[i as int].username,
    {
        let e = &self.entries[i];
        (e.platform, clone_bytes(&e.username))
    }

    /// Records that the session of the model at `i` ended.
    pub fn session_end_at(&mut self, i: usize)
        requires
            old(self).wf(),
            i < old(self)@.len(),
        ensures
            final(self).wf(),
            final(self)@ == old(self)@.update(
                i as int,
                ModelModel { downloading: false, ..old(self)@[i as int] },
            ),
    {
        let ghost prev = self@;
        let mut m = self.entries.remove(i);
        m.on_session_end();
        let ghost mm = m@;
        self.entries.insert(i, m);
        proof {
            assert(self@ =~= prev.update(i as int, mm));
            assert forall|a: int, b: int| 0 <= a < b < self@.len() implies !same_key(
                self@[a],
                self@[b],
            ) by {
                assert(same_key(self@[a], prev[a]));
                assert(same_key(self@[b], prev[b]));
            }
        }
    }

    /// Reconciles the tracked set against a freshly loaded configuration.
    ///
    /// Models the configuration no longer names are removed from the set
    /// at once and handed back with their abort flag set, so their
    /// sessions can finish detached; models it newly names are added
    /// fresh; models it keeps naming stay untouched, sessions included.
    pub fn update_config(&mut self, target: &Models) -> (removed: Vec<Model>)
        requires
            old(self).wf(),
            target.wf(),
        ensures
            final(self).wf(),
            final(self)@ == retained_models(old(self)@, target@) + added_models(
                target@,
                old(self)@,
            ),
            removed@.map_values(|m: Model| m@) == dropped_models(old(self)@, target@),
    {
        let ghost prev = self@;
        let mut kept: Vec<Model> = Vec::new();
        let mut removed: Vec<Model> = Vec::new();
        let mut i: usize = 0;
        proof {
            assert(prev.subrange(0, 0) =~= Seq::<ModelModel>::empty());
            assert(kept@.map_values(|m: Model| m@) =~= Seq::<ModelModel>::empty());
            assert(removed@.map_values(|m: Model| m@) =~= Seq::<ModelModel>::empty());
        }
        while i < self.entries.len()
            invariant
                i <= self.entries@.len(),
                prev == self.entries@.map_values(|m: Model| m@),
                kept@.map_values(|m: Model| m@) == retained_models(
                    prev.subrange(0, i as int),
                    target@,
                ),
                removed@.map_values(|m: Model| m@) == dropped_models(
                    prev.subrange(0, i as int),
                    target@,
                ),
            decreases self.entries@.len() - i,
        {
            proof {
                assert(prev.subrange(0, i + 1).drop_last() =~= prev.subrange(0, i as int));
                assert(prev.subrange(0, i + 1).last() == prev[i as int]);
            }
            let m = clone_model(&self.entries[i]);
            if target.contains_key(&m) {
                kept.push(m);
                proof {
                    assert(kept@.map_values(|x: Model| x@) =~= retained_models(
                        prev.subrange(0, i as int),
                        target@,
                    ).push(prev[i as int]));
                }
            } else {
                let mut mm = m;
                mm.abort();
                removed.push(mm);
                proof {
                    assert(removed@.map_values(|x: Model| x@) =~= dropped_models(
                        prev.subrange(0, i as int),
                        target@,
                    ).push(ModelModel { aborted: true, ..prev[i as int] }));
                }
            }
            i = i + 1;
        }
        proof {
            assert(prev.subrange(0, prev.len() as int) =~= prev);
        }
        let ghost tmodels = target@;
        let mut j: usize = 0;
        proof {
            assert(tmodels.subrange(0, 0) =~= Seq::<ModelModel>::empty());
            assert(added_models(tmodels.subrange(0, 0), prev) =~= Seq::<ModelModel>::empty());
        }
        let mut added: Vec<Model> = Vec::new();
        while j < target.entries.len()
            invariant
                j <= target.entries@.len(),
                tmodels == target.entries@.map_values(|m: Model| m@),
                prev == old(self)@,
                self@ == prev,
                self.entries@.map_values(|m: Model| m@) == prev,
                added@.map_values(|m: Model| m@) == added_models(
                    tmodels.subrange(0, j as int),
                    prev,
                ),
            decreases target.entries@.len() - j,
        {
            proof {
                assert(tmodels.subrange(0, j + 1).drop_last() =~= tmodels.subrange(0, j as int));
                assert(tmodels.subrange(0, j + 1).last() == tmodels[j as int]);
            }
            let t = clone_model(&target.entries[j]);
            if !self.contains_key(&t) {
                added.push(t);
                proof {
                    assert(added@.map_values(|x: Model| x@) =~= added_models(
                        tmodels.subrange(0, j as int),
                        prev,
                    ).push(tmodels[j as int]));
                }
            }
            j = j + 1;
        }
        proof {
            assert(tmodels.subrange(0, tmodels.len() as int) =~= tmodels);
        }
        let mut new_entries = kept;
        let mut k: usize = 0;
        let ghost keptm = new_entries@.map_values(|m: Model| m@);
        let ghost addedm = added@.map_values(|m: Model| m@);
        while k < added.len()
            invariant
                k <= added@.len(),
                addedm == added@.map_values(|m: Model| m@),
                new_entries@.map_values(|m: Model| m@) == keptm + addedm.subrange(0, k as int),
            decreases added@.len() - k,
        {
            let a = clone_model(&added[k]);
            new_entries.push(a);
            proof {
                assert(keptm + addedm.subrange(0, k + 1) =~= (keptm + addedm.subrange(
                    0,
                    k as int,
                )).push(addedm[k as int]));
                assert(new_entries@.map_values(|m: Model| m@) =~= (keptm + addedm.subrange(
                    0,
                    k as int,
                )).push(addedm[k as int]));
            }
            k = k + 1;
        }
        proof {
            assert(addedm.subrange(0, addedm.len() as int) =~= addedm);
        }
        self.entries = new_entries;
        proof {
            assert(self@ == keptm + addedm);
            lemma_retained_sub(prev, tmodels);
            lemma_added_sub(tmodels, prev);
            assert forall|a: int, b: int| 0 <= a < b < self@.len() implies !same_key(
                self@[a],
                self@[b],
            ) by {
                let nk = keptm.len();
                if a < nk && b >= nk {
                    if same_key(self@[a], self@[b]) {
                        assert(has_key(prev, keptm[a]));
                        let w = choose|x: int| 0 <= x < prev.len() && same_key(prev[x], keptm[a]);
                        assert(same_key(prev[w], addedm[b - nk]));
                        assert(has_key(prev, addedm[b - nk]));
                    }
                }
            }
        }
        removed
    }
}

} // verus!
