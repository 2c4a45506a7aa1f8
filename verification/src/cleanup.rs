//! The per-channel retention/cleanup pass.
//!
//! After a synchronization pass the worker enforces the channel's
//! retention cap: with the channel's episodes ordered newest-first, every
//! episode at a position at or past the cap is a deletion candidate.  For
//! each one the driver first removes the backing file (an already absent
//! file counts as removed) and only once the file is confirmed gone
//! deletes the database row; a row whose file could not be removed is left
//! intact.  Unlike the synchronization pass, a failure here does not stop
//! the pass: the remaining candidates are still processed.

use vstd::prelude::*;

use crate::episode::Episode;

verus! {

/// What the pass asks its driver to do next.  Indices point into the
/// newest-first episode list the pass was created with.
#[derive(Clone, Copy, Debug, PartialEq, Eq, Structural)]
pub enum CleanupAction {
    /// Remove the episode's backing file; an absent file counts as
    /// removed.
    DeleteFile { index: usize },
    /// Delete the episode's database row.
    DeleteRow { index: usize },
    /// The pass is over.
    Done,
}

/// The outcome of the action the driver just performed.
#[derive(Clone, Copy, Debug, PartialEq, Eq, Structural)]
pub enum CleanupEvent {
    /// Whether the file is now confirmed absent (it was absent already,
    /// or it was removed).
    FileGone(bool),
    /// Whether the row deletion went through.
    RowDeleted(bool),
}

#[derive(Clone, Copy, Debug, PartialEq, Eq, Structural)]
pub enum CleanupPhase {
    File,
    Row,
    Finished,
}

/// Ghost model of a cleanup pass over `n` episodes with `keep` retained.
#[verifier::ext_equal]
pub struct CleanupModel {
    pub n: usize,
    pub keep: usize,
    pub idx: usize,
    pub phase: CleanupPhase,
    /// Positions whose row was deleted, in order.
    pub removed: Seq<usize>,
}

impl CleanupModel {
    pub open spec fn wf(self) -> bool {
        &&& self.idx <= self.n
        &&& !(self.phase is Finished) ==> self.idx < self.n
    }
}

/// A pass starts at the first position past the cap; with nothing past
/// the cap there is nothing to do.
pub open spec fn init_cleanup(n: usize, keep: usize) -> CleanupModel {
    CleanupModel {
        n,
        keep,
        idx: if keep < n {
            keep
        } else {
            n
        },
        phase: if keep < n {
            CleanupPhase::File
        } else {
            CleanupPhase::Finished
        },
        removed: Seq::empty(),
    }
}

/// The action the pass wants performed in a given state.
pub open spec fn cleanup_action_of(m: CleanupModel) -> CleanupAction {
    match m.phase {
        CleanupPhase::File => CleanupAction::DeleteFile { index: m.idx },
        CleanupPhase::Row => CleanupAction::DeleteRow { index: m.idx },
        CleanupPhase::Finished => CleanupAction::Done,
    }
}

/// The kind of event the pass is waiting for.
pub open spec fn cleanup_event_fits(m: CleanupModel, ev: CleanupEvent) -> bool {
    match m.phase {
        CleanupPhase::File => ev is FileGone,
        CleanupPhase::Row => ev is RowDeleted,
        CleanupPhase::Finished => false,
    }
}

/// Move to the next deletion candidate, or finish after the last one.
pub open spec fn cleanup_advanced(m: CleanupModel) -> CleanupModel {
    CleanupModel {
        idx: (m.idx + 1) as usize,
        phase: if m.idx + 1 == m.n {
            CleanupPhase::Finished
        } else {
            CleanupPhase::File
        },
        ..m
    }
}

/// The transition relation of the pass.
///
/// Only a position whose file is confirmed gone reaches the row deletion;
/// a position whose file could not be removed, or whose row deletion
/// fails, is skipped and the pass moves on.
pub open spec fn cleanup_step(m: CleanupModel, ev: CleanupEvent) -> CleanupModel
    recommends
        m.wf(),
        cleanup_event_fits(m, ev),
{
    match ev {
        CleanupEvent::FileGone(true) => CleanupModel { phase: CleanupPhase::Row, ..m },
        CleanupEvent::FileGone(false) => cleanup_advanced(m),
        CleanupEvent::RowDeleted(true) => cleanup_advanced(
            CleanupModel { removed: m.removed.push(m.idx), ..m },
        ),
        CleanupEvent::RowDeleted(false) => cleanup_advanced(m),
    }
}

/// One channel's cleanup pass over its episodes, newest first.
pub struct CleanupPass {
    episodes: Vec<Episode>,
    keep: usize,
    idx: usize,
    phase: CleanupPhase,
    removed: Vec<usize>,
}

impl View for CleanupPass {
    type V = CleanupModel;

    closed spec fn view(&self) -> CleanupModel {
        CleanupModel {
            n: self.episodes@.len() as usize,
            keep: self.keep,
            idx: self.idx,
            phase: self.phase,
            removed: self.removed@,
        }
    }
}

impl CleanupPass {
    /// The episode list this pass walks, newest first.
    pub closed spec fn episodes(&self) -> Seq<Episode> {
        self.episodes@
    }

    pub open spec fn wf(&self) -> bool {
        &&& self@.wf()
        &&& self.episodes().len() == self@.n
    }

    /// Start a cleanup pass over a channel's episodes, as enumerated by
    /// the store newest-first, keeping at most `keep` of them.
    pub fn new(episodes: Vec<Episode>, keep: usize) -> (s: CleanupPass)
        ensures
            s.wf(),
            s@ == init_cleanup(episodes@.len() as usize, keep),
            s.episodes() == episodes@,
    {
        let n = episodes.len();
        let s = CleanupPass {
            episodes,
            keep,
            idx: if keep < n {
                keep
            } else {
                n
            },
            phase: if keep < n {
                CleanupPhase::File
            } else {
                CleanupPhase::Finished
            },
            removed: Vec::new(),
        };
        proof {
            assert(s@ =~= init_cleanup(n, keep));
        }
        s
    }

    /// What the driver should do next.
    pub fn next_action(&self) -> (a: CleanupAction)
        ensures
            a == cleanup_action_of(self@),
    {
        match self.phase {
            CleanupPhase::File => CleanupAction::DeleteFile { index: self.idx },
            CleanupPhase::Row => CleanupAction::DeleteRow { index: self.idx },
            CleanupPhase::Finished => CleanupAction::Done,
        }
    }

    /// Feed back the outcome of the action last asked for.
    pub fn apply(&mut self, ev: CleanupEvent)
        requires
            old(self).wf(),
            cleanup_event_fits(old(self)@, ev),
        ensures
            final(self).wf(),
            final(self)@ == cleanup_step(old(self)@, ev),
            final(self).episodes() == old(self).episodes(),
    {
        match ev {
            CleanupEvent::FileGone(true) => {
                self.phase = CleanupPhase::Row;
            },
            CleanupEvent::FileGone(false) => self.advance(),
            CleanupEvent::RowDeleted(true) => {
                self.removed.push(self.idx);
                self.advance();
            },
            CleanupEvent::RowDeleted(false) => self.advance(),
        }
        proof {
            assert(self@ =~= cleanup_step(old(self)@, ev));
        }
    }

    fn advance(&mut self)
        requires
            old(self).wf(),
            !(old(self)@.phase is Finished),
        ensures
            final(self)@ == cleanup_advanced(old(self)@),
            final(self).episodes() == old(self).episodes(),
    {
        self.idx = self.idx + 1;
        self.phase = if self.idx == self.episodes.len() {
            CleanupPhase::Finished
        } else {
            CleanupPhase::File
        };
        proof {
            assert(self@ =~= cleanup_advanced(old(self)@));
        }
    }

    pub fn is_finished(&self) -> (b: bool)
        ensures
            b == (self@.phase is Finished),
    {
        match self.phase {
            CleanupPhase::Finished => true,
            _ => false,
        }
    }

    pub fn len(&self) -> (n: usize)
        ensures
            n == self@.n,
    {
        self.episodes.len()
    }

    /// The episode at a position of the newest-first order.
    pub fn episode(&self, i: usize) -> (e: &Episode)
        requires
            i < self.episodes().len(),
        ensures
            *e == self.episodes()[i as int],
    {
        &self.episodes[i]
    }

    /// The positions whose row was deleted so far, in order.
    pub fn removed_indices(&self) -> (v: &Vec<usize>)
        ensures
            v@ == self@.removed,
    {
        &self.removed
    }
}

/// Convert a channel's stored retention cap to a count, refusing a
/// negative cap and one that does not fit the machine.
pub fn retention_limit(max: i64) -> (r: Option<usize>)
    ensures
        r is Some <==> 0 <= max <= usize::MAX,
        r matches Some(k) ==> k == max,
{
    if max < 0 {
        Option::None
    } else if max as u64 > usize::MAX as u64 {
        Option::None
    } else {
        Option::Some(max as usize)
    }
}

// ------------------------------------------------------------------
// Complete runs of the model, and the laws that hold of them.
// ------------------------------------------------------------------

pub open spec fn cleanup_phase_rank(p: CleanupPhase) -> int {
    match p {
        CleanupPhase::File => 1,
        CleanupPhase::Row => 0,
        CleanupPhase::Finished => 0,
    }
}

/// The event the answer sequences supply in a given state.
pub open spec fn cleanup_oracle_event(
    m: CleanupModel,
    gone: Seq<bool>,
    rowok: Seq<bool>,
) -> CleanupEvent {
    match m.phase {
        CleanupPhase::File => CleanupEvent::FileGone(gone[m.idx as int]),
        CleanupPhase::Row => CleanupEvent::RowDeleted(rowok[m.idx as int]),
        CleanupPhase::Finished => CleanupEvent::FileGone(false),
    }
}

/// Play the machine to completion against fixed answers.
pub open spec fn run_cleanup(m: CleanupModel, gone: Seq<bool>, rowok: Seq<bool>) -> CleanupModel
    decreases m.n - m.idx, cleanup_phase_rank(m.phase),
{
    if m.phase is Finished || !m.wf() {
        m
    } else {
        run_cleanup(cleanup_step(m, cleanup_oracle_event(m, gone, rowok)), gone, rowok)
    }
}

/// A whole cleanup pass from the start.
pub open spec fn run_cleanup_pass(
    n: usize,
    keep: usize,
    gone: Seq<bool>,
    rowok: Seq<bool>,
) -> CleanupModel {
    run_cleanup(init_cleanup(n, keep), gone, rowok)
}

/// The positions in `[from, n)` whose file and row deletions both
/// succeed, in order.
pub open spec fn removable_indices(gone: Seq<bool>, rowok: Seq<bool>, from: int, n: int) -> Seq<
    usize,
>
    decreases n - from,
{
    if from < 0 || from >= n {
        Seq::empty()
    } else if gone[from] && rowok[from] {
        seq![from as usize] + removable_indices(gone, rowok, from + 1, n)
    } else {
        removable_indices(gone, rowok, from + 1, n)
    }
}

/// Everything the run does, in one statement: it finishes, and it removes
/// exactly the positions from the current one on whose file and row
/// deletions both succeed.
proof fn lemma_cleanup_characterization(m: CleanupModel, gone: Seq<bool>, rowok: Seq<bool>)
    requires
        m.wf(),
        m.phase is File,
    ensures
        ({
            let r = run_cleanup(m, gone, rowok);
            &&& r.phase is Finished
            &&& r.n == m.n
            &&& r.keep == m.keep
            &&& r.removed == m.removed + removable_indices(gone, rowok, m.idx as int, m.n as int)
        }),
    decreases m.n - m.idx,
{
    let i = m.idx as int;
    let n = m.n as int;
    if gone[i] {
        let m1 = cleanup_step(m, CleanupEvent::FileGone(true));
        assert(m1 == cleanup_step(m, cleanup_oracle_event(m, gone, rowok)));
        assert(run_cleanup(m, gone, rowok) == run_cleanup(m1, gone, rowok));
        let m2 = cleanup_step(m1, CleanupEvent::RowDeleted(rowok[i]));
        assert(m2 == cleanup_step(m1, cleanup_oracle_event(m1, gone, rowok)));
        assert(run_cleanup(m1, gone, rowok) == run_cleanup(m2, gone, rowok));
        if rowok[i] {
            assert(m2 == cleanup_advanced(CleanupModel { removed: m.removed.push(m.idx), ..m }));
            if i + 1 == n {
                assert(run_cleanup(m2, gone, rowok) == m2);
                assert(removable_indices(gone, rowok, i + 1, n) =~= Seq::<usize>::empty());
                assert(m2.removed =~= m.removed + removable_indices(gone, rowok, i, n));
            } else {
                lemma_cleanup_characterization(m2, gone, rowok);
                assert(m.removed.push(m.idx) + removable_indices(gone, rowok, i + 1, n)
                    =~= m.removed + removable_indices(gone, rowok, i, n));
            }
        } else {
            if i + 1 == n {
                assert(run_cleanup(m2, gone, rowok) == m2);
                assert(removable_indices(gone, rowok, i + 1, n) =~= Seq::<usize>::empty());
                assert(m2.removed =~= m.removed + removable_indices(gone, rowok, i, n));
            } else {
                lemma_cleanup_characterization(m2, gone, rowok);
                assert(m.removed + removable_indices(gone, rowok, i + 1, n) =~= m.removed
                    + removable_indices(gone, rowok, i, n));
            }
        }
    } else {
        let m1 = cleanup_step(m, CleanupEvent::FileGone(false));
        assert(m1 == cleanup_step(m, cleanup_oracle_event(m, gone, rowok)));
        assert(run_cleanup(m, gone, rowok) == run_cleanup(m1, gone, rowok));
        if i + 1 == n {
            assert(run_cleanup(m1, gone, rowok) == m1);
            assert(removable_indices(gone, rowok, i + 1, n) =~= Seq::<usize>::empty());
            assert(m1.removed =~= m.removed + removable_indices(gone, rowok, i, n));
        } else {
            lemma_cleanup_characterization(m1, gone, rowok);
            assert(m.removed + removable_indices(gone, rowok, i + 1, n) =~= m.removed
                + removable_indices(gone, rowok, i, n));
        }
    }
}

/// With every deletion succeeding, every position from `from` on is
/// removed.
proof fn lemma_removable_all(gone: Seq<bool>, rowok: Seq<bool>, from: int, n: int)
    requires
        0 <= from <= n,
        forall|i: int| from <= i < n ==> gone[i] && rowok[i],
    ensures
        removable_indices(gone, rowok, from, n) == Seq::new(
            (n - from) as nat,
            |k: int| (from + k) as usize,
        ),
    decreases n - from,
{
    if from < n {
        lemma_removable_all(gone, rowok, from + 1, n);
    }
    assert(removable_indices(gone, rowok, from, n) =~= Seq::new(
        (n - from) as nat,
        |k: int| (from + k) as usize,
    ));
}

/// Elements of `removable_indices`: each position listed is at or past
/// `from`, before `n`, and listed once, in increasing order.
proof fn lemma_removable_elements(gone: Seq<bool>, rowok: Seq<bool>, from: int, n: int)
    requires
        0 <= from,
        n <= usize::MAX,
    ensures
        ({
            let s = removable_indices(gone, rowok, from, n);
            &&& forall|j: int| 0 <= j < s.len() ==> from <= #[trigger] s[j] < n
            &&& forall|j1: int, j2: int| 0 <= j1 < j2 < s.len() ==> s[j1] < s[j2]
        }),
    decreases n - from,
{
    if from < n {
        lemma_removable_elements(gone, rowok, from + 1, n);
        let rest = removable_indices(gone, rowok, from + 1, n);
        if gone[from] && rowok[from] {
            let s = removable_indices(gone, rowok, from, n);
            assert(s =~= seq![from as usize] + rest);
            assert forall|j: int| 0 <= j < s.len() implies from <= #[trigger] s[j] < n by {
                if j == 0 {
                    assert(s[j] == from as usize);
                } else {
                    assert(s[j] == rest[j - 1]);
                }
            }
            assert forall|j1: int, j2: int| 0 <= j1 < j2 < s.len() implies s[j1] < s[j2] by {
                if j1 == 0 {
                    assert(s[j2] == rest[j2 - 1]);
                } else {
                    assert(s[j1] == rest[j1 - 1] && s[j2] == rest[j2 - 1]);
                }
            }
        }
    }
}

/// Law (retention): when every file and row deletion succeeds, the pass
/// removes exactly the positions at or past the cap, so at most `keep`
/// episodes remain, and they are the first `keep` of the newest-first
/// order.
pub proof fn lemma_cleanup_retention(n: usize, keep: usize, gone: Seq<bool>, rowok: Seq<bool>)
    requires
        gone.len() == n,
        rowok.len() == n,
        forall|i: int| 0 <= i < n ==> gone[i] && rowok[i],
    ensures
        run_cleanup_pass(n, keep, gone, rowok).removed == (if keep < n {
            Seq::new((n - keep) as nat, |k: int| (keep + k) as usize)
        } else {
            Seq::<usize>::empty()
        }),
        n - run_cleanup_pass(n, keep, gone, rowok).removed.len() <= keep,
{
    let m = init_cleanup(n, keep);
    if keep < n {
        lemma_cleanup_characterization(m, gone, rowok);
        lemma_removable_all(gone, rowok, keep as int, n as int);
        assert(run_cleanup_pass(n, keep, gone, rowok).removed =~= Seq::new(
            (n - keep) as nat,
            |k: int| (keep + k) as usize,
        ));
    }
}

/// Law (retention keeps the newest): whatever the answers, a cleanup pass
/// only ever removes positions at or past the cap; and with the episode
/// list sorted newest-first, every retained position at a position before
/// the cap is at least as new as every removed one.
pub proof fn lemma_cleanup_keeps_newest(
    dates: Seq<i64>,
    n: usize,
    keep: usize,
    gone: Seq<bool>,
    rowok: Seq<bool>,
)
    requires
        dates.len() == n,
        forall|i: int, j: int| 0 <= i <= j < n ==> dates[i] >= dates[j],
    ensures
        forall|j: int|
            0 <= j < run_cleanup_pass(n, keep, gone, rowok).removed.len() ==> keep <= (
            #[trigger] run_cleanup_pass(n, keep, gone, rowok).removed[j]) < n,
        forall|i: int, j: int|
            #![trigger dates[i], run_cleanup_pass(n, keep, gone, rowok).removed[j]]
            0 <= i < keep && 0 <= j < run_cleanup_pass(n, keep, gone, rowok).removed.len() && i < n
                ==> dates[i] >= dates[run_cleanup_pass(n, keep, gone, rowok).removed[j] as int],
{
    let m = init_cleanup(n, keep);
    if keep < n {
        lemma_cleanup_characterization(m, gone, rowok);
        lemma_removable_elements(gone, rowok, keep as int, n as int);
        let r = run_cleanup_pass(n, keep, gone, rowok);
        assert(r.removed =~= removable_indices(gone, rowok, keep as int, n as int));
    }
}

} // verus!
