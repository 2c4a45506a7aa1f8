//! The per-channel synchronization pass.
//!
//! One pass walks the candidate list the enumeration tool returned, in
//! order.  For each candidate it asks the store whether the episode is
//! already known; a known candidate is skipped, a new one is downloaded
//! and then persisted.  A failing download or a failing insert stops the
//! whole pass for this channel; the channel is retried fresh next pass.
//!
//! The pass is a state machine: the driver reads the next action, performs
//! it (a store query, a download, an insert) and feeds the outcome back as
//! an event.  Every decision the machine takes is specified against the
//! ghost model below, and the laws at the end of this module are proved
//! over complete runs of that model.

use vstd::prelude::*;

use crate::dates::{compact_date_epoch, parse_date, valid_compact_date};
use crate::episode::NewEpisode;
use crate::ytdlp::YtVideo;

verus! {

/// What the pass asks its driver to do next.  Indices point into the
/// candidate list the pass was created with.
#[derive(Clone, Copy, Debug, PartialEq, Eq, Structural)]
pub enum SyncAction {
    /// Ask the store whether the channel already has a row for the
    /// candidate's external id.
    CheckExists { index: usize },
    /// Download the candidate's audio to the channel's media directory.
    Download { index: usize },
    /// Insert the episode row built from the candidate.
    Persist { index: usize },
    /// The pass is over.
    Done,
}

/// The outcome of the action the driver just performed.
#[derive(Clone, Copy, Debug, PartialEq, Eq, Structural)]
pub enum SyncEvent {
    Exists(bool),
    Downloaded(bool),
    Persisted(bool),
}

#[derive(Clone, Copy, Debug, PartialEq, Eq, Structural)]
pub enum SyncPhase {
    Checking,
    Downloading,
    Persisting,
    Finished,
}

/// Ghost model of a pass over `n` candidates: where the pass stands, which
/// candidates it asked to download, and which episode rows it created.
#[verifier::ext_equal]
pub struct SyncModel {
    pub channel_id: i64,
    pub n: usize,
    pub idx: usize,
    pub phase: SyncPhase,
    /// Candidates handed to the downloader, in order.
    pub attempted: Seq<usize>,
    /// Candidates whose episode row was inserted, in order.
    pub persisted: Seq<usize>,
    /// Whether the pass was cut short by a failure.
    pub failed: bool,
}

impl SyncModel {
    pub open spec fn wf(self) -> bool {
        &&& self.idx <= self.n
        &&& !(self.phase is Finished) ==> self.idx < self.n
    }
}

/// A pass starts at the first candidate, with nothing attempted and
/// nothing persisted; with no candidates there is nothing to do.
pub open spec fn init_model(channel_id: i64, n: usize) -> SyncModel {
    SyncModel {
        channel_id,
        n,
        idx: 0,
        phase: if n == 0 {
            SyncPhase::Finished
        } else {
            SyncPhase::Checking
        },
        attempted: Seq::empty(),
        persisted: Seq::empty(),
        failed: false,
    }
}

/// The action the pass wants performed in a given state.
pub open spec fn action_of(m: SyncModel) -> SyncAction {
    match m.phase {
        SyncPhase::Checking => SyncAction::CheckExists { index: m.idx },
        SyncPhase::Downloading => SyncAction::Download { index: m.idx },
        SyncPhase::Persisting => SyncAction::Persist { index: m.idx },
        SyncPhase::Finished => SyncAction::Done,
    }
}

/// The kind of event the pass is waiting for.
pub open spec fn event_fits(m: SyncModel, ev: SyncEvent) -> bool {
    match m.phase {
        SyncPhase::Checking => ev is Exists,
        SyncPhase::Downloading => ev is Downloaded,
        SyncPhase::Persisting => ev is Persisted,
        SyncPhase::Finished => false,
    }
}

/// Move to the next candidate, or finish after the last one.
pub open spec fn advanced(m: SyncModel) -> SyncModel {
    SyncModel {
        idx: (m.idx + 1) as usize,
        phase: if m.idx + 1 == m.n {
            SyncPhase::Finished
        } else {
            SyncPhase::Checking
        },
        ..m
    }
}

/// The transition relation of the pass.
///
/// A known candidate is skipped.  A new one is recorded as attempted and
/// downloaded; a failed download finishes the pass with `failed` set.  A
/// successful download is persisted; a failed insert also finishes the
/// pass, a successful one records the row and moves on.
pub open spec fn step_model(m: SyncModel, ev: SyncEvent) -> SyncModel
    recommends
        m.wf(),
        event_fits(m, ev),
{
    match ev {
        SyncEvent::Exists(true) => advanced(m),
        SyncEvent::Exists(false) => SyncModel {
            phase: SyncPhase::Downloading,
            attempted: m.attempted.push(m.idx),
            ..m
        },
        SyncEvent::Downloaded(true) => SyncModel { phase: SyncPhase::Persisting, ..m },
        SyncEvent::Downloaded(false) => SyncModel { phase: SyncPhase::Finished, failed: true, ..m },
        SyncEvent::Persisted(true) => advanced(
            SyncModel { persisted: m.persisted.push(m.idx), ..m },
        ),
        SyncEvent::Persisted(false) => SyncModel { phase: SyncPhase::Finished, failed: true, ..m },
    }
}

/// The episode row built from a candidate: every metadata field copied,
/// the publication instant parsed from the upload date, and the listened
/// flag clear.
pub open spec fn episode_matches(e: NewEpisode, channel_id: i64, v: YtVideo) -> bool {
    &&& e.channel_id == channel_id
    &&& e.title@ == v.title@
    &&& e.description@ == v.description@
    &&& e.yt_id@ == v.id@
    &&& e.webpage_url@ == v.webpage_url@
    &&& e.published_at == compact_date_epoch(v.upload_date@)
    &&& e.duration@ == v.duration_string@
    &&& e.image@ == v.thumbnail@
    &&& e.listen == false
}

/// Whether every candidate carries an acceptable upload date — the
/// condition under which a pass can be started on the list.
pub fn dates_valid(videos: &Vec<YtVideo>) -> (b: bool)
    ensures
        b == forall|i: int|
            0 <= i < videos@.len() ==> valid_compact_date(#[trigger] videos@[i].upload_date@),
{
    let n = videos.len();
    let mut i: usize = 0;
    while i < n
        invariant
            i <= n == videos@.len(),
            forall|j: int| 0 <= j < i ==> valid_compact_date(#[trigger] videos@[j].upload_date@),
        decreases n - i,
    {
        if parse_date(videos[i].upload_date.as_str()).is_none() {
            return false;
        }
        i = i + 1;
    }
    true
}

/// One channel's synchronization pass over a fixed candidate list.
pub struct SyncPass {
    channel_id: i64,
    videos: Vec<YtVideo>,
    idx: usize,
    phase: SyncPhase,
    attempted: Vec<usize>,
    persisted: Vec<usize>,
    failed: bool,
}

impl View for SyncPass {
    type V = SyncModel;

    closed spec fn view(&self) -> SyncModel {
        SyncModel {
            channel_id: self.channel_id,
            n: self.videos@.len() as usize,
            idx: self.idx,
            phase: self.phase,
            attempted: self.attempted@,
            persisted: self.persisted@,
            failed: self.failed,
        }
    }
}

impl SyncPass {
    /// The candidate list this pass walks.
    pub closed spec fn videos(&self) -> Seq<YtVideo> {
        self.videos@
    }

    pub open spec fn wf(&self) -> bool {
        &&& self@.wf()
        &&& self.videos().len() == self@.n
        &&& forall|i: int|
            0 <= i < self.videos().len() ==> valid_compact_date(
                #[trigger] self.videos()[i].upload_date@,
            )
    }

    /// Start a pass for one channel over the candidates the enumeration
    /// tool returned, in the order it returned them.
    pub fn new(channel_id: i64, videos: Vec<YtVideo>) -> (s: SyncPass)
        requires
            forall|i: int|
                0 <= i < videos@.len() ==> valid_compact_date(
                    #[trigger] videos@[i].upload_date@,
                ),
        ensures
            s.wf(),
            s@ == init_model(channel_id, videos@.len() as usize),
            s.videos() == videos@,
    {
        let n = videos.len();
        let s = SyncPass {
            channel_id,
            videos,
            idx: 0,
            phase: if n == 0 {
                SyncPhase::Finished
            } else {
                SyncPhase::Checking
            },
            attempted: Vec::new(),
            persisted: Vec::new(),
            failed: false,
        };
        proof {
            assert(s@ =~= init_model(channel_id, n));
        }
        s
    }

    /// What the driver should do next.
    pub fn next_action(&self) -> (a: SyncAction)
        ensures
            a == action_of(self@),
    {
        match self.phase {
            SyncPhase::Checking => SyncAction::CheckExists { index: self.idx },
            SyncPhase::Downloading => SyncAction::Download { index: self.idx },
            SyncPhase::Persisting => SyncAction::Persist { index: self.idx },
            SyncPhase::Finished => SyncAction::Done,
        }
    }

    /// Feed back the outcome of the action last asked for.
    pub fn apply(&mut self, ev: SyncEvent)
        requires
            old(self).wf(),
            event_fits(old(self)@, ev),
        ensures
            final(self).wf(),
            final(self)@ == step_model(old(self)@, ev),
            final(self).videos() == old(self).videos(),
    {
        match ev {
            SyncEvent::Exists(true) => self.advance(),
            SyncEvent::Exists(false) => {
                self.attempted.push(self.idx);
                self.phase = SyncPhase::Downloading;
            },
            SyncEvent::Downloaded(true) => {
                self.phase = SyncPhase::Persisting;
            },
            SyncEvent::Downloaded(false) => {
                self.phase = SyncPhase::Finished;
                self.failed = true;
            },
            SyncEvent::Persisted(true) => {
                self.persisted.push(self.idx);
                self.advance();
            },
            SyncEvent::Persisted(false) => {
                self.phase = SyncPhase::Finished;
                self.failed = true;
            },
        }
        proof {
            assert(self@ =~= step_model(old(self)@, ev));
        }
    }

    fn advance(&mut self)
        requires
            old(self).wf(),
            !(old(self)@.phase is Finished),
        ensures
            final(self)@ == advanced(old(self)@),
            final(self).videos() == old(self).videos(),
    {
        self.idx = self.idx + 1;
        self.phase = if self.idx == self.videos.len() {
            SyncPhase::Finished
        } else {
            SyncPhase::Checking
        };
        proof {
            assert(self@ =~= advanced(old(self)@));
        }
    }

    pub fn is_finished(&self) -> (b: bool)
        ensures
            b == (self@.phase is Finished),
    {
        match self.phase {
            SyncPhase::Finished => true,
            _ => false,
        }
    }

    /// Whether the pass was cut short by a download or persist failure.
    pub fn has_failed(&self) -> (b: bool)
        ensures
            b == self@.failed,
    {
        self.failed
    }

    pub fn channel_id(&self) -> (id: i64)
        ensures
            id == self@.channel_id,
    {
        self.channel_id
    }

    pub fn len(&self) -> (n: usize)
        ensures
            n == self@.n,
    {
        self.videos.len()
    }

    /// The candidate at a position of the enumeration order.
    pub fn video(&self, i: usize) -> (v: &YtVideo)
        requires
            i < self.videos().len(),
        ensures
            *v == self.videos()[i as int],
    {
        &self.videos[i]
    }

    /// The candidates handed to the downloader so far, in order.
    pub fn attempted_indices(&self) -> (v: &Vec<usize>)
        ensures
            v@ == self@.attempted,
    {
        &self.attempted
    }

    /// The candidates whose episode row was inserted so far, in order.
    pub fn persisted_indices(&self) -> (v: &Vec<usize>)
        ensures
            v@ == self@.persisted,
    {
        &self.persisted
    }

    /// The episode row for candidate `i`: fields copied from the
    /// candidate, the publication instant parsed from its upload date.
    pub fn build_episode(&self, i: usize) -> (e: NewEpisode)
        requires
            self.wf(),
            i < self.videos().len(),
        ensures
            episode_matches(e, self@.channel_id, self.videos()[i as int]),
    {
        let v = &self.videos[i];
        let published_at = parse_date(v.upload_date.as_str()).unwrap();
        NewEpisode {
            channel_id: self.channel_id,
            title: v.title.clone(),
            description: v.description.clone(),
            yt_id: v.id.clone(),
            webpage_url: v.webpage_url.clone(),
            published_at,
            duration: v.duration_string.clone(),
            image: v.thumbnail.clone(),
            listen: false,
        }
    }
}

// ------------------------------------------------------------------
// Complete runs of the model, and the laws that hold of them.
//
// A run plays the machine to completion against three fixed answer
// sequences: whether the store already knows candidate i, whether its
// download succeeds, and whether its insert succeeds.  The laws below
// quantify over all such answer sequences.
// ------------------------------------------------------------------

pub open spec fn phase_rank(p: SyncPhase) -> int {
    match p {
        SyncPhase::Checking => 3,
        SyncPhase::Downloading => 2,
        SyncPhase::Persisting => 1,
        SyncPhase::Finished => 0,
    }
}

/// The event the answer sequences supply in a given state.
pub open spec fn oracle_event(m: SyncModel, ex: Seq<bool>, dl: Seq<bool>, ps: Seq<bool>) -> SyncEvent {
    match m.phase {
        SyncPhase::Checking => SyncEvent::Exists(ex[m.idx as int]),
        SyncPhase::Downloading => SyncEvent::Downloaded(dl[m.idx as int]),
        SyncPhase::Persisting => SyncEvent::Persisted(ps[m.idx as int]),
        SyncPhase::Finished => SyncEvent::Exists(false),
    }
}

/// Play the machine to completion against fixed answers.
pub open spec fn run_model(m: SyncModel, ex: Seq<bool>, dl: Seq<bool>, ps: Seq<bool>) -> SyncModel
    decreases m.n - m.idx, phase_rank(m.phase),
{
    if m.phase is Finished || !m.wf() {
        m
    } else {
        run_model(step_model(m, oracle_event(m, ex, dl, ps)), ex, dl, ps)
    }
}

/// A whole pass from the start: the machine run to completion over `n`
/// candidates for one channel.
pub open spec fn run_pass(
    channel_id: i64,
    n: usize,
    ex: Seq<bool>,
    dl: Seq<bool>,
    ps: Seq<bool>,
) -> SyncModel {
    run_model(init_model(channel_id, n), ex, dl, ps)
}

/// The candidate the pass stops on: the first one from `from` on that is
/// new but whose download or insert answer is a failure; `n` when every
/// candidate from `from` on goes through.
pub open spec fn stop_point(ex: Seq<bool>, dl: Seq<bool>, ps: Seq<bool>, from: int, n: int) -> int
    decreases n - from,
{
    if from < 0 || from >= n {
        n
    } else if !ex[from] && (!dl[from] || !ps[from]) {
        from
    } else {
        stop_point(ex, dl, ps, from + 1, n)
    }
}

/// The positions in `[from, to)` the store does not know yet, in order.
pub open spec fn new_indices(ex: Seq<bool>, from: int, to: int) -> Seq<usize>
    decreases to - from,
{
    if from < 0 || from >= to {
        Seq::empty()
    } else if !ex[from] {
        seq![from as usize] + new_indices(ex, from + 1, to)
    } else {
        new_indices(ex, from + 1, to)
    }
}

proof fn lemma_stop_point_bounds(ex: Seq<bool>, dl: Seq<bool>, ps: Seq<bool>, from: int, n: int)
    requires
        0 <= from <= n,
    ensures
        from <= stop_point(ex, dl, ps, from, n) <= n,
    decreases n - from,
{
    if from < n && !(!ex[from] && (!dl[from] || !ps[from])) {
        lemma_stop_point_bounds(ex, dl, ps, from + 1, n);
    }
}

/// Everything the run does, in one statement: it finishes; it persists
/// exactly the new candidates before the stop point; it attempts exactly
/// those and, on failure, the stopping candidate itself; and it reports
/// failure exactly when it stopped early.
proof fn lemma_run_characterization(m: SyncModel, ex: Seq<bool>, dl: Seq<bool>, ps: Seq<bool>)
    requires
        m.wf(),
        m.phase is Checking,
    ensures
        ({
            let sp = stop_point(ex, dl, ps, m.idx as int, m.n as int);
            let r = run_model(m, ex, dl, ps);
            &&& r.phase is Finished
            &&& r.n == m.n
            &&& r.channel_id == m.channel_id
            &&& r.failed == (m.failed || sp < m.n)
            &&& r.persisted == m.persisted + new_indices(ex, m.idx as int, sp)
            &&& r.attempted == m.attempted + new_indices(ex, m.idx as int, sp) + (if sp < m.n {
                seq![sp as usize]
            } else {
                Seq::<usize>::empty()
            })
        }),
    decreases m.n - m.idx,
{
    let i = m.idx as int;
    let n = m.n as int;
    let sp = stop_point(ex, dl, ps, i, n);
    lemma_stop_point_bounds(ex, dl, ps, i, n);
    if ex[i] {
        let m1 = step_model(m, SyncEvent::Exists(true));
        assert(m1 == step_model(m, oracle_event(m, ex, dl, ps)));
        assert(run_model(m, ex, dl, ps) == run_model(m1, ex, dl, ps));
        assert(sp == stop_point(ex, dl, ps, i + 1, n));
        assert(new_indices(ex, i, sp) =~= new_indices(ex, i + 1, sp));
        if i + 1 == n {
            assert(run_model(m1, ex, dl, ps) == m1);
            assert(new_indices(ex, i + 1, sp) =~= Seq::<usize>::empty());
            assert(m1.persisted =~= m.persisted + new_indices(ex, i, sp));
            assert(m1.attempted =~= m.attempted + new_indices(ex, i, sp) + Seq::<usize>::empty());
        } else {
            lemma_run_characterization(m1, ex, dl, ps);
            assert(m1.persisted + new_indices(ex, i + 1, sp) =~= m.persisted + new_indices(
                ex,
                i,
                sp,
            ));
            assert(m1.attempted + new_indices(ex, i + 1, sp) =~= m.attempted + new_indices(
                ex,
                i,
                sp,
            ));
        }
    } else {
        let m1 = step_model(m, SyncEvent::Exists(false));
        assert(m1 == step_model(m, oracle_event(m, ex, dl, ps)));
        assert(run_model(m, ex, dl, ps) == run_model(m1, ex, dl, ps));
        assert(m1.phase is Downloading && m1.attempted == m.attempted.push(m.idx));
        if !dl[i] {
            let m2 = step_model(m1, SyncEvent::Downloaded(false));
            assert(m2 == step_model(m1, oracle_event(m1, ex, dl, ps)));
            assert(run_model(m1, ex, dl, ps) == run_model(m2, ex, dl, ps));
            assert(run_model(m2, ex, dl, ps) == m2);
            assert(sp == i);
            assert(new_indices(ex, i, i) =~= Seq::<usize>::empty());
            assert(m2.persisted =~= m.persisted + new_indices(ex, i, sp));
            assert(m2.attempted =~= m.attempted + new_indices(ex, i, sp) + seq![i as usize]);
        } else {
            let m2 = step_model(m1, SyncEvent::Downloaded(true));
            assert(m2 == step_model(m1, oracle_event(m1, ex, dl, ps)));
            assert(run_model(m1, ex, dl, ps) == run_model(m2, ex, dl, ps));
            assert(m2.phase is Persisting);
            if !ps[i] {
                let m3 = step_model(m2, SyncEvent::Persisted(false));
                assert(m3 == step_model(m2, oracle_event(m2, ex, dl, ps)));
                assert(run_model(m2, ex, dl, ps) == run_model(m3, ex, dl, ps));
                assert(run_model(m3, ex, dl, ps) == m3);
                assert(sp == i);
                assert(new_indices(ex, i, i) =~= Seq::<usize>::empty());
                assert(m3.persisted =~= m.persisted + new_indices(ex, i, sp));
                assert(m3.attempted =~= m.attempted + new_indices(ex, i, sp) + seq![i as usize]);
            } else {
                let m3 = step_model(m2, SyncEvent::Persisted(true));
                assert(m3 == step_model(m2, oracle_event(m2, ex, dl, ps)));
                assert(run_model(m2, ex, dl, ps) == run_model(m3, ex, dl, ps));
                assert(sp == stop_point(ex, dl, ps, i + 1, n));
                lemma_stop_point_bounds(ex, dl, ps, i + 1, n);
                assert(new_indices(ex, i, sp) =~= seq![i as usize] + new_indices(ex, i + 1, sp));
                if i + 1 == n {
                    assert(run_model(m3, ex, dl, ps) == m3);
                    assert(new_indices(ex, i + 1, sp) =~= Seq::<usize>::empty());
                    assert(m3.persisted =~= m.persisted + new_indices(ex, i, sp));
                    assert(m3.attempted =~= m.attempted + new_indices(ex, i, sp)
                        + Seq::<usize>::empty());
                } else {
                    lemma_run_characterization(m3, ex, dl, ps);
                    assert(m3.persisted + new_indices(ex, i + 1, sp) =~= m.persisted + new_indices(
                        ex,
                        i,
                        sp,
                    ));
                    assert(m3.attempted + new_indices(ex, i + 1, sp) =~= m.attempted + new_indices(
                        ex,
                        i,
                        sp,
                    ));
                    assert(m3.attempted + new_indices(ex, i + 1, sp) + (if sp < n {
                        seq![sp as usize]
                    } else {
                        Seq::<usize>::empty()
                    }) =~= m.attempted + new_indices(ex, i, sp) + (if sp < n {
                        seq![sp as usize]
                    } else {
                        Seq::<usize>::empty()
                    }));
                }
            }
        }
    }
}

/// With every candidate from `from` on already known, nothing stops the
/// pass and nothing is new.
proof fn lemma_all_known(ex: Seq<bool>, dl: Seq<bool>, ps: Seq<bool>, from: int, n: int)
    requires
        0 <= from <= n,
        forall|i: int| from <= i < n ==> ex[i],
    ensures
        stop_point(ex, dl, ps, from, n) == n,
        new_indices(ex, from, n) == Seq::<usize>::empty(),
    decreases n - from,
{
    if from < n {
        lemma_all_known(ex, dl, ps, from + 1, n);
    }
}

/// Elements of `new_indices`: each position listed is in range, unknown
/// to the store, and the list is strictly increasing.
proof fn lemma_new_indices_elements(ex: Seq<bool>, from: int, to: int)
    requires
        0 <= from,
        to <= usize::MAX,
    ensures
        ({
            let s = new_indices(ex, from, to);
            &&& forall|j: int|
                0 <= j < s.len() ==> from <= #[trigger] s[j] < to && !ex[s[j] as int]
            &&& forall|j1: int, j2: int| 0 <= j1 < j2 < s.len() ==> s[j1] < s[j2]
        }),
    decreases to - from,
{
    if from < to {
        lemma_new_indices_elements(ex, from + 1, to);
        let rest = new_indices(ex, from + 1, to);
        if !ex[from] {
            let s = new_indices(ex, from, to);
            assert(s =~= seq![from as usize] + rest);
            assert forall|j: int|
                0 <= j < s.len() implies from <= #[trigger] s[j] < to && !ex[s[j] as int] by {
                if j == 0 {
                    assert(s[j] == from as usize);
                } else {
                    assert(s[j] == rest[j - 1]);
                }
            }
            assert forall|j1: int, j2: int| 0 <= j1 < j2 < s.len() implies s[j1] < s[j2] by {
                if j1 == 0 {
                    assert(s[j2] == rest[j2 - 1]);
                } else {
                    assert(s[j1] == rest[j1 - 1] && s[j2] == rest[j2 - 1]);
                }
            }
        }
    }
}

/// With every candidate from `from` up to `to` new, every position is
/// listed.
proof fn lemma_all_new(ex: Seq<bool>, from: int, to: int)
    requires
        0 <= from <= to,
        forall|i: int| from <= i < to ==> !ex[i],
    ensures
        new_indices(ex, from, to) == Seq::new((to - from) as nat, |k: int| (from + k) as usize),
    decreases to - from,
{
    if from < to {
        lemma_all_new(ex, from + 1, to);
        assert(new_indices(ex, from, to) =~= Seq::new(
            (to - from) as nat,
            |k: int| (from + k) as usize,
        ));
    } else {
        assert(new_indices(ex, from, to) =~= Seq::new(
            (to - from) as nat,
            |k: int| (from + k) as usize,
        ));
    }
}

/// With no failure among the new candidates in `[from, n)`, the pass
/// never stops early.
proof fn lemma_no_failures(ex: Seq<bool>, dl: Seq<bool>, ps: Seq<bool>, from: int, n: int)
    requires
        0 <= from <= n,
        forall|i: int| from <= i < n && !ex[i] ==> dl[i] && ps[i],
    ensures
        stop_point(ex, dl, ps, from, n) == n,
    decreases n - from,
{
    if from < n {
        lemma_no_failures(ex, dl, ps, from + 1, n);
    }
}

/// The first failing new candidate is the stop point.
proof fn lemma_stop_at(ex: Seq<bool>, dl: Seq<bool>, ps: Seq<bool>, from: int, k: int, n: int)
    requires
        0 <= from <= k < n,
        forall|i: int| from <= i < k && !ex[i] ==> dl[i] && ps[i],
        !ex[k],
        !dl[k] || !ps[k],
    ensures
        stop_point(ex, dl, ps, from, n) == k,
    decreases k - from,
{
    if from < k {
        lemma_stop_at(ex, dl, ps, from + 1, k, n);
    }
}

/// Law (idempotency): a pass over candidates the store already knows in
/// full creates no episode row and hands nothing to the downloader,
/// whatever the download and insert answers would have been.
pub proof fn lemma_sync_idempotent(
    channel_id: i64,
    n: usize,
    ex: Seq<bool>,
    dl: Seq<bool>,
    ps: Seq<bool>,
)
    requires
        ex.len() == n,
        forall|i: int| 0 <= i < n ==> ex[i],
    ensures
        run_pass(channel_id, n, ex, dl, ps).persisted == Seq::<usize>::empty(),
        run_pass(channel_id, n, ex, dl, ps).attempted == Seq::<usize>::empty(),
        !run_pass(channel_id, n, ex, dl, ps).failed,
{
    let m = init_model(channel_id, n);
    if n == 0 {
    } else {
        lemma_run_characterization(m, ex, dl, ps);
        lemma_all_known(ex, dl, ps, 0, n as int);
        assert(run_pass(channel_id, n, ex, dl, ps).persisted =~= Seq::<usize>::empty());
        assert(run_pass(channel_id, n, ex, dl, ps).attempted =~= Seq::<usize>::empty());
    }
}

/// Law (stop on failure): with every candidate new, downloads and inserts
/// succeeding strictly before position `k` and the download of `k`
/// failing, the pass persists exactly the candidates before `k`, attempts
/// exactly those and `k` itself, touches nothing after `k`, and reports
/// the failure.
pub proof fn lemma_sync_stop_on_failure(
    channel_id: i64,
    n: usize,
    ex: Seq<bool>,
    dl: Seq<bool>,
    ps: Seq<bool>,
    k: int,
)
    requires
        ex.len() == n,
        dl.len() == n,
        ps.len() == n,
        0 <= k < n,
        forall|i: int| 0 <= i < n ==> !ex[i],
        forall|i: int| 0 <= i < k ==> dl[i] && ps[i],
        !dl[k],
    ensures
        run_pass(channel_id, n, ex, dl, ps).persisted == Seq::new(
            k as nat,
            |i: int| i as usize,
        ),
        run_pass(channel_id, n, ex, dl, ps).attempted == Seq::new(
            (k + 1) as nat,
            |i: int| i as usize,
        ),
        run_pass(channel_id, n, ex, dl, ps).failed,
{
    let m = init_model(channel_id, n);
    lemma_run_characterization(m, ex, dl, ps);
    lemma_stop_at(ex, dl, ps, 0, k, n as int);
    lemma_all_new(ex, 0, k);
    assert(run_pass(channel_id, n, ex, dl, ps).persisted =~= Seq::new(
        k as nat,
        |i: int| i as usize,
    ));
    assert(Seq::<usize>::empty() + Seq::new(k as nat, |i: int| i as usize) + seq![k as usize]
        =~= Seq::new((k + 1) as nat, |i: int| i as usize));
}

/// Law (full success): with every candidate new and every download and
/// insert succeeding, the pass persists all candidates in enumeration
/// order and reports no failure.
pub proof fn lemma_sync_all_new_success(
    channel_id: i64,
    n: usize,
    ex: Seq<bool>,
    dl: Seq<bool>,
    ps: Seq<bool>,
)
    requires
        ex.len() == n,
        dl.len() == n,
        ps.len() == n,
        forall|i: int| 0 <= i < n ==> !ex[i],
        forall|i: int| 0 <= i < n ==> dl[i] && ps[i],
    ensures
        run_pass(channel_id, n, ex, dl, ps).persisted == Seq::new(
            n as nat,
            |i: int| i as usize,
        ),
        !run_pass(channel_id, n, ex, dl, ps).failed,
{
    let m = init_model(channel_id, n);
    if n == 0 {
        assert(run_pass(channel_id, n, ex, dl, ps).persisted =~= Seq::new(
            n as nat,
            |i: int| i as usize,
        ));
    } else {
        lemma_run_characterization(m, ex, dl, ps);
        lemma_no_failures(ex, dl, ps, 0, n as int);
        lemma_all_new(ex, 0, n as int);
        assert(run_pass(channel_id, n, ex, dl, ps).persisted =~= Seq::new(
            n as nat,
            |i: int| i as usize,
        ));
    }
}

/// Law (dedup): whatever the answers, a pass persists a candidate only if
/// the store did not know it, and persists no position twice.
pub proof fn lemma_sync_dedup(
    channel_id: i64,
    n: usize,
    ex: Seq<bool>,
    dl: Seq<bool>,
    ps: Seq<bool>,
)
    ensures
        ({
            let r = run_pass(channel_id, n, ex, dl, ps);
            &&& forall|j: int|
                0 <= j < r.persisted.len() ==> (#[trigger] r.persisted[j]) < n && !ex[r.persisted[j] as int]
            &&& forall|j1: int, j2: int|
                0 <= j1 < j2 < r.persisted.len() ==> r.persisted[j1] < r.persisted[j2]
        }),
{
    let m = init_model(channel_id, n);
    if n == 0 {
    } else {
        lemma_run_characterization(m, ex, dl, ps);
        lemma_stop_point_bounds(ex, dl, ps, 0, n as int);
        let sp = stop_point(ex, dl, ps, 0, n as int);
        lemma_new_indices_elements(ex, 0, sp);
        let r = run_pass(channel_id, n, ex, dl, ps);
        assert(r.persisted =~= new_indices(ex, 0, sp));
    }
}

} // verus!
