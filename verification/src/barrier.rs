//! The commit barrier: when a window is mapped among siblings on the
//! same output, its raise is deferred through two phases. First every
//! sibling must commit once, then the siblings' blocker tokens are
//! released; then every sibling must commit once more (the post-release
//! frame), and only then is the gated window raised. A sibling destroyed
//! while pending counts as satisfied, and destroying the gated window
//! releases the siblings at once.

use vstd::prelude::*;

verus! {

/// Where a barrier episode stands.
#[derive(Clone, Copy, Debug, PartialEq, Eq, Structural)]
pub enum BarrierPhase {
    /// Waiting for every sibling's first commit; their commits are held
    /// back by blocker tokens.
    AwaitingRelease,
    /// Blockers are released; waiting for every sibling's post-release
    /// commit.
    AwaitingConfirm,
    /// The episode is over: the gated window was raised or destroyed.
    Done,
}

/// What one barrier step asks the windowing layer to do.
#[derive(Clone, Copy, Debug, PartialEq, Eq, Structural)]
pub struct BarrierOutput {
    /// Remove the blocker tokens of every sibling, so their held-back
    /// commits flush.
    pub release: bool,
    /// Raise the gated window above its siblings.
    pub raise: bool,
}

/// A commit event or a destruction event, as the barrier sees them.
#[derive(Clone, Copy, Debug, PartialEq, Eq, Structural)]
pub enum BarrierEvent {
    Commit(u32),
    Destroyed(u32),
}

/// The spec-level image of a barrier.
pub struct BarrierView {
    pub gated: u32,
    pub members: Seq<u32>,
    pub pending: Seq<u32>,
    pub phase: BarrierPhase,
    pub released: bool,
    pub raised: bool,
}

/// One barrier episode: the gated window, the surviving siblings, and
/// which of them the current phase still waits on.
pub struct Barrier {
    pub gated: u32,
    pub members: Vec<u32>,
    pub pending: Vec<u32>,
    pub phase: BarrierPhase,
    pub released: bool,
    pub raised: bool,
}

/// No window id occurs twice.
pub open spec fn no_dup(s: Seq<u32>) -> bool {
    forall|i: int, j: int| 0 <= i < j < s.len() ==> s[i] != s[j]
}

/// `s` without every occurrence of `w`.
pub open spec fn remove_all(s: Seq<u32>, w: u32) -> Seq<u32> {
    crate::tag::spec_ids_without(s, w)
}

impl BarrierView {
    /// Well-formedness of a barrier state.
    pub open spec fn wf(self) -> bool {
        &&& no_dup(self.members)
        &&& no_dup(self.pending)
        &&& (forall|x: u32| self.pending.contains(x) ==> self.members.contains(x))
        &&& !self.members.contains(self.gated)
        &&& (self.phase is AwaitingRelease ==> !self.released)
        &&& (self.phase is AwaitingConfirm ==> self.released)
        &&& (self.phase is Done ==> self.released)
        &&& (!(self.phase is Done) ==> self.pending.len() > 0)
        &&& (self.raised ==> self.phase is Done)
    }
}

/// The freshly installed barrier for `gated`, waiting on `siblings`.
pub open spec fn spec_install(gated: u32, siblings: Seq<u32>) -> BarrierView {
    BarrierView {
        gated,
        members: siblings,
        pending: siblings,
        phase: BarrierPhase::AwaitingRelease,
        released: false,
        raised: false,
    }
}

/// Phase changes once the pending set has emptied: the first emptying
/// releases the blockers and re-arms on the surviving members; the
/// second raises the gated window. With no surviving members the raise
/// follows the release at once.
pub open spec fn spec_advance(b: BarrierView) -> (BarrierView, BarrierOutput) {
    if b.pending.len() == 0 && !(b.phase is Done) {
        if b.phase is AwaitingRelease {
            if b.members.len() == 0 {
                (
                    BarrierView {
                        phase: BarrierPhase::Done,
                        released: true,
                        raised: true,
                        pending: b.members,
                        ..b
                    },
                    BarrierOutput { release: true, raise: true },
                )
            } else {
                (
                    BarrierView {
                        phase: BarrierPhase::AwaitingConfirm,
                        released: true,
                        pending: b.members,
                        ..b
                    },
                    BarrierOutput { release: true, raise: false },
                )
            }
        } else {
            (
                BarrierView { phase: BarrierPhase::Done, raised: true, ..b },
                BarrierOutput { release: false, raise: true },
            )
        }
    } else {
        (b, BarrierOutput { release: false, raise: false })
    }
}

/// A commit of window `w`: its pending slot (if any) is satisfied.
pub open spec fn spec_on_commit(b: BarrierView, w: u32) -> (BarrierView, BarrierOutput) {
    if b.phase is Done {
        (b, BarrierOutput { release: false, raise: false })
    } else {
        spec_advance(BarrierView { pending: remove_all(b.pending, w), ..b })
    }
}

/// Destruction of window `w`. Destroying the gated window ends the
/// episode and releases the siblings; a destroyed sibling counts as
/// immediately satisfied.
pub open spec fn spec_on_destroyed(b: BarrierView, w: u32) -> (BarrierView, BarrierOutput) {
    if b.phase is Done {
        (b, BarrierOutput { release: false, raise: false })
    } else if w == b.gated {
        (
            BarrierView { phase: BarrierPhase::Done, released: true, ..b },
            BarrierOutput { release: !b.released, raise: false },
        )
    } else {
        spec_advance(
            BarrierView {
                members: remove_all(b.members, w),
                pending: remove_all(b.pending, w),
                ..b
            },
        )
    }
}

/// One event, dispatched.
pub open spec fn spec_step(b: BarrierView, e: BarrierEvent) -> (BarrierView, BarrierOutput) {
    match e {
        BarrierEvent::Commit(w) => spec_on_commit(b, w),
        BarrierEvent::Destroyed(w) => spec_on_destroyed(b, w),
    }
}

/// Membership and shape of a filtered id sequence.
proof fn lemma_remove_all(s: Seq<u32>, w: u32)
    ensures
        forall|x: u32| #[trigger] remove_all(s, w).contains(x) ==> s.contains(x) && x != w,
        forall|x: u32| #[trigger] s.contains(x) && x != w ==> remove_all(s, w).contains(x),
        no_dup(s) ==> no_dup(remove_all(s, w)),
        remove_all(s, w).len() <= s.len(),
    decreases s.len(),
{
    reveal(Seq::filter);
    if s.len() == 0 {
        assert(remove_all(s, w) =~= Seq::empty());
    } else {
        let rest = s.drop_last();
        lemma_remove_all(rest, w);
        assert forall|x: u32| #[trigger] remove_all(s, w).contains(x) implies (s.contains(x) && x
            != w) by {
            if remove_all(rest, w).contains(x) {
                assert(s.contains(x)) by {
                    let i = choose|i: int| 0 <= i < rest.len() && rest[i] == x;
                    assert(s[i] == x);
                }
            }
        }
        assert forall|x: u32| #[trigger] s.contains(x) && x != w implies remove_all(
            s,
            w,
        ).contains(x) by {
            let i = choose|i: int| 0 <= i < s.len() && s[i] == x;
            if i < s.len() - 1 {
                assert(rest.contains(x)) by {
                    assert(rest[i] == x);
                }
                assert(remove_all(rest, w).contains(x));
                let j = choose|j: int| 0 <= j < remove_all(rest, w).len() && remove_all(rest, w)[j]
                    == x;
                assert(remove_all(s, w)[j] == x);
            } else {
                assert(s.last() == x);
                assert(remove_all(s, w).last() == x);
            }
        }
        if no_dup(s) {
            assert(no_dup(rest)) by {
                assert forall|i: int, j: int| 0 <= i < j < rest.len() implies rest[i] != rest[j] by {
                    assert(s[i] == rest[i] && s[j] == rest[j]);
                }
            }
            if s.last() != w {
                assert(!remove_all(rest, w).contains(s.last())) by {
                    if rest.contains(s.last()) {
                        let i = choose|i: int| 0 <= i < rest.len() && rest[i] == s.last();
                        assert(s[i] == s.last() && i < s.len() - 1);
                    }
                }
                assert(remove_all(s, w) == remove_all(rest, w).push(s.last()));
                assert(no_dup(remove_all(s, w))) by {
                    let out = remove_all(s, w);
                    let prefix = remove_all(rest, w);
                    assert forall|i: int, j: int| 0 <= i < j < out.len() implies out[i]
                        != out[j] by {
                        if j < out.len() - 1 {
                            assert(out[i] == prefix[i] && out[j] == prefix[j]);
                        } else {
                            assert(out[j] == s.last());
                            assert(prefix[i] == out[i]);
                            assert(prefix.contains(out[i])) by {
                                assert(prefix[i] == out[i]);
                            }
                        }
                    }
                }
            }
        }
    }
}

impl Clone for Barrier {
    fn clone(&self) -> (res: Self)
        ensures
            res.view() == self.view(),
    {
        Barrier {
            gated: self.gated,
            members: crate::tag::copy_ids(&self.members),
            pending: crate::tag::copy_ids(&self.pending),
            phase: self.phase,
            released: self.released,
            raised: self.raised,
        }
    }
}

impl Barrier {
    /// The spec-level image of this barrier.
    pub open spec fn view(&self) -> BarrierView {
        BarrierView {
            gated: self.gated,
            members: self.members@,
            pending: self.pending@,
            phase: self.phase,
            released: self.released,
            raised: self.raised,
        }
    }

    /// Well-formedness, lifted from the view.
    pub open spec fn wf(&self) -> bool {
        self.view().wf()
    }

    /// Install a barrier gating `gated` on `siblings`. With no siblings
    /// there is nothing to wait for: no barrier exists and the caller
    /// raises the window immediately.
    pub fn install(gated: u32, siblings: Vec<u32>) -> (r: Option<Barrier>)
        requires
            no_dup(siblings@),
            !siblings@.contains(gated),
        ensures
            match r {
                None => siblings@.len() == 0,
                Some(b) => siblings@.len() > 0 && b.view() == spec_install(gated, siblings@)
                    && b.wf(),
            },
    {
        if siblings.len() == 0 {
            return None;
        }
        let members = crate::tag::copy_ids(&siblings);
        Some(
            Barrier {
                gated,
                members,
                pending: siblings,
                phase: BarrierPhase::AwaitingRelease,
                released: false,
                raised: false,
            },
        )
    }

    /// Complete a phase whose pending set has emptied.
    fn advance(&mut self) -> (out: BarrierOutput)
        requires
            no_dup(old(self).view().members),
            forall|x: u32|
                old(self).view().pending.contains(x) ==> old(self).view().members.contains(x),
            old(self).phase is AwaitingConfirm ==> old(self).released,
            old(self).phase is AwaitingRelease ==> !old(self).released,
        ensures
            (final(self).view(), out) == spec_advance(old(self).view()),
    {
        if self.pending.len() == 0 && !matches!(self.phase, BarrierPhase::Done) {
            if matches!(self.phase, BarrierPhase::AwaitingRelease) {
                self.released = true;
                if self.members.len() == 0 {
                    self.phase = BarrierPhase::Done;
                    self.raised = true;
                    self.pending = crate::tag::copy_ids(&self.members);
                    BarrierOutput { release: true, raise: true }
                } else {
                    self.phase = BarrierPhase::AwaitingConfirm;
                    self.pending = crate::tag::copy_ids(&self.members);
                    BarrierOutput { release: true, raise: false }
                }
            } else {
                self.phase = BarrierPhase::Done;
                self.raised = true;
                BarrierOutput { release: false, raise: true }
            }
        } else {
            BarrierOutput { release: false, raise: false }
        }
    }

    /// Feed one commit event.
    pub fn on_commit(&mut self, w: u32) -> (out: BarrierOutput)
        requires
            old(self).wf(),
        ensures
            (final(self).view(), out) == spec_on_commit(old(self).view(), w),
            final(self).wf(),
    {
        if matches!(self.phase, BarrierPhase::Done) {
            return BarrierOutput { release: false, raise: false };
        }
        proof {
            lemma_remove_all(self.pending@, w);
        }
        self.pending = crate::tag::ids_without(&self.pending, w);
        let out = self.advance();
        proof {
            lemma_step_wf(old(self).view(), BarrierEvent::Commit(w));
        }
        out
    }

    /// Feed one destruction event.
    pub fn on_destroyed(&mut self, w: u32) -> (out: BarrierOutput)
        requires
            old(self).wf(),
        ensures
            (final(self).view(), out) == spec_on_destroyed(old(self).view(), w),
            final(self).wf(),
    {
        if matches!(self.phase, BarrierPhase::Done) {
            return BarrierOutput { release: false, raise: false };
        }
        if w == self.gated {
            let out = BarrierOutput { release: !self.released, raise: false };
            self.phase = BarrierPhase::Done;
            self.released = true;
            return out;
        }
        proof {
            lemma_remove_all(self.members@, w);
            lemma_remove_all(self.pending@, w);
        }
        self.members = crate::tag::ids_without(&self.members, w);
        self.pending = crate::tag::ids_without(&self.pending, w);
        let out = self.advance();
        proof {
            lemma_step_wf(old(self).view(), BarrierEvent::Destroyed(w));
        }
        out
    }
}

/// Every step from a well-formed state leaves a well-formed state.
pub proof fn lemma_step_wf(b: BarrierView, e: BarrierEvent)
    requires
        b.wf(),
    ensures
        spec_step(b, e).0.wf(),
{
    match e {
        BarrierEvent::Commit(w) => {
            lemma_remove_all(b.pending, w);
        },
        BarrierEvent::Destroyed(w) => {
            lemma_remove_all(b.members, w);
            lemma_remove_all(b.pending, w);
        },
    }
}

/// The barrier state after processing all of `evs`, first event first.
pub open spec fn run(b: BarrierView, evs: Seq<BarrierEvent>) -> BarrierView
    decreases evs.len(),
{
    if evs.len() == 0 {
        b
    } else {
        run(spec_step(b, evs[0]).0, evs.drop_first())
    }
}

/// The barrier state after the first `k` events of `evs`.
pub open spec fn state_at(b0: BarrierView, evs: Seq<BarrierEvent>, k: int) -> BarrierView {
    run(b0, evs.take(k))
}

/// Whether the step taken on event `k` emits the release output.
pub open spec fn releases_at(b0: BarrierView, evs: Seq<BarrierEvent>, k: int) -> bool {
    spec_step(state_at(b0, evs, k), evs[k]).1.release
}

/// Whether the step taken on event `k` emits the raise output.
pub open spec fn raises_at(b0: BarrierView, evs: Seq<BarrierEvent>, k: int) -> bool {
    spec_step(state_at(b0, evs, k), evs[k]).1.raise
}

/// Window `m` is destroyed at or before event `i`.
pub open spec fn destroyed_by(evs: Seq<BarrierEvent>, m: u32, i: int) -> bool {
    exists|j: int| 0 <= j <= i && j < evs.len() && evs[j] == BarrierEvent::Destroyed(m)
}

/// Window `m` commits strictly after event `rel` and at or before event
/// `i`: a post-release commit.
pub open spec fn committed_within(evs: Seq<BarrierEvent>, m: u32, rel: int, i: int) -> bool {
    exists|j: int| rel < j <= i && j < evs.len() && evs[j] == BarrierEvent::Commit(m)
}

proof fn lemma_run_snoc(b: BarrierView, evs: Seq<BarrierEvent>, e: BarrierEvent)
    ensures
        run(b, evs.push(e)) == spec_step(run(b, evs), e).0,
    decreases evs.len(),
{
    let p = evs.push(e);
    if evs.len() == 0 {
        assert(p[0] == e);
        assert(p.drop_first() =~= Seq::empty());
        assert(run(b, p) == run(spec_step(b, e).0, p.drop_first()));
        assert(run(spec_step(b, e).0, p.drop_first()) == spec_step(b, e).0);
    } else {
        assert(p[0] == evs[0]);
        assert(p.drop_first() =~= evs.drop_first().push(e));
        assert(run(b, p) == run(spec_step(b, evs[0]).0, p.drop_first()));
        lemma_run_snoc(spec_step(b, evs[0]).0, evs.drop_first(), e);
        assert(run(b, evs) == run(spec_step(b, evs[0]).0, evs.drop_first()));
    }
}

/// During the confirm phase, every surviving member either still has a
/// pending slot or has committed since the release step `rel`.
pub open spec fn confirm_window(
    b0: BarrierView,
    evs: Seq<BarrierEvent>,
    k: int,
    rel: int,
) -> bool {
    forall|m: u32|
        #[trigger] state_at(b0, evs, k).members.contains(m) ==> state_at(
            b0,
            evs,
            k,
        ).pending.contains(m) || committed_within(evs, m, rel, k - 1)
}

/// The reachability invariant of a barrier run.
pub open spec fn run_inv(b0: BarrierView, evs: Seq<BarrierEvent>, k: int) -> bool {
    let s = state_at(b0, evs, k);
    &&& s.wf()
    &&& s.gated == b0.gated
    &&& (forall|m: u32|
        #[trigger] b0.members.contains(m) ==> s.members.contains(m) || destroyed_by(
            evs,
            m,
            k - 1,
        ))
    &&& (forall|m: u32| #[trigger] s.members.contains(m) ==> b0.members.contains(m))
    &&& (s.phase is AwaitingConfirm ==> exists|rel: int|
        0 <= rel < k && #[trigger] releases_at(b0, evs, rel) && confirm_window(b0, evs, k, rel))
}

/// The invariant holds after every prefix of a run that starts from a
/// freshly installed barrier.
proof fn lemma_run_inv(b0: BarrierView, evs: Seq<BarrierEvent>, k: int)
    requires
        b0.wf(),
        b0.phase is AwaitingRelease,
        b0.pending == b0.members,
        0 <= k <= evs.len(),
    ensures
        run_inv(b0, evs, k),
    decreases k,
{
    if k == 0 {
        assert(evs.take(0) =~= Seq::empty());
        assert(state_at(b0, evs, 0) == b0);
    } else {
        lemma_run_inv(b0, evs, k - 1);
        let s = state_at(b0, evs, k - 1);
        let e = evs[k - 1];
        assert(evs.take(k) =~= evs.take(k - 1).push(e));
        lemma_run_snoc(b0, evs.take(k - 1), e);
        let s2 = state_at(b0, evs, k);
        assert(s2 == spec_step(s, e).0);
        lemma_step_wf(s, e);
        let w = match e {
            BarrierEvent::Commit(w) => w,
            BarrierEvent::Destroyed(w) => w,
        };
        lemma_remove_all(s.members, w);
        lemma_remove_all(s.pending, w);

        // Tracking of destroyed members.
        assert forall|m: u32| #[trigger] b0.members.contains(m) implies s2.members.contains(m)
            || destroyed_by(evs, m, k - 1) by {
            if s.members.contains(m) {
                if !s2.members.contains(m) {
                    assert(e == BarrierEvent::Destroyed(m));
                    assert(0 <= k - 1 <= k - 1 && k - 1 < evs.len() && evs[k - 1]
                        == BarrierEvent::Destroyed(m));
                }
            } else {
                assert(destroyed_by(evs, m, k - 2));
                let j = choose|j: int|
                    0 <= j <= k - 2 && j < evs.len() && evs[j] == BarrierEvent::Destroyed(m);
                assert(0 <= j <= k - 1 && j < evs.len() && evs[j] == BarrierEvent::Destroyed(m));
            }
        }
        assert forall|m: u32| #[trigger] s2.members.contains(m) implies b0.members.contains(
            m,
        ) by {
            assert(s.members.contains(m));
        }

        // The confirm-phase bookkeeping.
        if s2.phase is AwaitingConfirm {
            if s.phase is AwaitingRelease {
                // This step released: the pending set emptied and the
                // members re-armed.
                assert(releases_at(b0, evs, k - 1));
                assert(s2.pending == s2.members);
                let rel = k - 1;
                assert(confirm_window(b0, evs, k, rel));
                assert(0 <= rel < k && releases_at(b0, evs, rel) && confirm_window(
                    b0,
                    evs,
                    k,
                    rel,
                ));
            } else {
                assert(s.phase is AwaitingConfirm);
                let rel = choose|rel: int|
                    0 <= rel < k - 1 && #[trigger] releases_at(b0, evs, rel) && confirm_window(
                        b0,
                        evs,
                        k - 1,
                        rel,
                    );
                assert forall|m: u32| #[trigger] s2.members.contains(m) implies s2.pending.contains(
                    m,
                ) || committed_within(evs, m, rel, k - 1) by {
                    assert(s.members.contains(m));
                    if !s2.pending.contains(m) {
                        if s.pending.contains(m) {
                            // Only this event's window lost its slot.
                            assert(m == w);
                            assert(e == BarrierEvent::Commit(m));
                            assert(rel < k - 1 <= k - 1 && k - 1 < evs.len() && evs[k - 1]
                                == BarrierEvent::Commit(m));
                        } else {
                            assert(committed_within(evs, m, rel, k - 2));
                            let j = choose|j: int|
                                rel < j <= k - 2 && j < evs.len() && evs[j] == BarrierEvent::Commit(
                                    m,
                                );
                            assert(rel < j <= k - 1 && j < evs.len() && evs[j]
                                == BarrierEvent::Commit(m));
                        }
                    }
                }
                assert(0 <= rel < k && releases_at(b0, evs, rel) && confirm_window(
                    b0,
                    evs,
                    k,
                    rel,
                ));
            }
        }
    }
}

/// Barrier ordering: starting from a freshly installed barrier, if the
/// raise fires at event `i`, then some earlier (or the same) event `rel`
/// released the blockers, and every sibling the barrier was installed on
/// either was destroyed by event `i` or committed again strictly after
/// the release — the raise never precedes the post-release commits.
pub proof fn lemma_barrier_ordering(b0: BarrierView, evs: Seq<BarrierEvent>, i: int)
    requires
        b0.wf(),
        b0.phase is AwaitingRelease,
        b0.pending == b0.members,
        0 <= i < evs.len(),
        raises_at(b0, evs, i),
    ensures
        exists|rel: int|
            0 <= rel <= i && #[trigger] releases_at(b0, evs, rel) && (forall|m: u32|
                #[trigger] b0.members.contains(m) ==> destroyed_by(evs, m, i) || committed_within(
                    evs,
                    m,
                    rel,
                    i,
                )),
{
    lemma_run_inv(b0, evs, i);
    let s = state_at(b0, evs, i);
    let e = evs[i];
    lemma_step_wf(s, e);
    let w = match e {
        BarrierEvent::Commit(w) => w,
        BarrierEvent::Destroyed(w) => w,
    };
    lemma_remove_all(s.members, w);
    lemma_remove_all(s.pending, w);
    let s2 = spec_step(s, e).0;
    if s.phase is AwaitingConfirm {
        let rel = choose|rel: int|
            0 <= rel < i && #[trigger] releases_at(b0, evs, rel) && confirm_window(
                b0,
                evs,
                i,
                rel,
            );
        assert forall|m: u32| #[trigger] b0.members.contains(m) implies destroyed_by(evs, m, i)
            || committed_within(evs, m, rel, i) by {
            if s.members.contains(m) {
                if s.pending.contains(m) {
                    // The pending set empties at this very event, so the
                    // slot lost here is this window's.
                    assert(m == w);
                    if e == BarrierEvent::Commit(m) {
                        assert(rel < i <= i && i < evs.len() && evs[i] == BarrierEvent::Commit(m));
                    } else {
                        assert(e == BarrierEvent::Destroyed(m));
                        assert(0 <= i <= i && i < evs.len() && evs[i] == BarrierEvent::Destroyed(
                            m,
                        ));
                    }
                } else {
                    assert(committed_within(evs, m, rel, i - 1));
                    let j = choose|j: int|
                        rel < j <= i - 1 && j < evs.len() && evs[j] == BarrierEvent::Commit(m);
                    assert(rel < j <= i && j < evs.len() && evs[j] == BarrierEvent::Commit(m));
                }
            } else {
                assert(destroyed_by(evs, m, i - 1));
                let j = choose|j: int|
                    0 <= j <= i - 1 && j < evs.len() && evs[j] == BarrierEvent::Destroyed(m);
                assert(0 <= j <= i && j < evs.len() && evs[j] == BarrierEvent::Destroyed(m));
            }
        }
        assert(0 <= rel <= i && releases_at(b0, evs, rel));
    } else {
        // A raise straight out of the waiting phase: the release fires
        // at this same event, and every surviving member is gone.
        assert(s.phase is AwaitingRelease);
        let rel = i;
        assert(releases_at(b0, evs, rel));
        assert forall|m: u32| #[trigger] b0.members.contains(m) implies destroyed_by(evs, m, i)
            || committed_within(evs, m, rel, i) by {
            if s.members.contains(m) {
                assert(m == w && e == BarrierEvent::Destroyed(m));
                assert(0 <= i <= i && i < evs.len() && evs[i] == BarrierEvent::Destroyed(m));
            } else {
                assert(destroyed_by(evs, m, i - 1));
                let j = choose|j: int|
                    0 <= j <= i - 1 && j < evs.len() && evs[j] == BarrierEvent::Destroyed(m);
                assert(0 <= j <= i && j < evs.len() && evs[j] == BarrierEvent::Destroyed(m));
            }
        }
        assert(0 <= rel <= i && releases_at(b0, evs, rel));
    }
}

/// A finished episode never changes again.
pub proof fn lemma_done_is_stable(b: BarrierView, e: BarrierEvent)
    ensures
        b.phase is Done ==> spec_step(b, e).0 == b,
{
}

/// Once the blockers are released they stay released, whatever else
/// happens.
pub proof fn lemma_released_is_stable(b: BarrierView, e: BarrierEvent)
    ensures
        b.released ==> spec_step(b, e).0.released,
{
}

/// Barrier liveness over a whole run: once the gated window is
/// destroyed, the siblings' blockers are released from that step on —
/// no pending commit stays blocked forever.
pub proof fn lemma_barrier_liveness_run(
    b0: BarrierView,
    evs: Seq<BarrierEvent>,
    j: int,
    k: int,
)
    requires
        b0.wf(),
        b0.phase is AwaitingRelease,
        b0.pending == b0.members,
        0 <= j < evs.len(),
        evs[j] == BarrierEvent::Destroyed(b0.gated),
        j < k <= evs.len(),
    ensures
        state_at(b0, evs, k).released,
    decreases k,
{
    if k == j + 1 {
        lemma_run_inv(b0, evs, j);
        let s = state_at(b0, evs, j);
        assert(evs.take(k) =~= evs.take(j).push(evs[j]));
        lemma_run_snoc(b0, evs.take(j), evs[j]);
        assert(state_at(b0, evs, k) == spec_step(s, evs[j]).0);
        if s.phase is Done {
            // A done episode is already released, and stays as it is.
        } else {
            // Destroying the gated window releases at this very step.
        }
    } else {
        lemma_barrier_liveness_run(b0, evs, j, k - 1);
        let s = state_at(b0, evs, k - 1);
        assert(evs.take(k) =~= evs.take(k - 1).push(evs[k - 1]));
        lemma_run_snoc(b0, evs.take(k - 1), evs[k - 1]);
        assert(state_at(b0, evs, k) == spec_step(s, evs[k - 1]).0);
        lemma_released_is_stable(s, evs[k - 1]);
    }
}

/// Barrier liveness: if the gated window is destroyed before the
/// episode resolves, the siblings' held-back commits are released at
/// that very step — the episode ends released, and the release output
/// fires exactly when the blockers were still in place.
pub proof fn lemma_barrier_liveness(b: BarrierView)
    requires
        b.wf(),
    ensures
        spec_on_destroyed(b, b.gated).0.released,
        spec_on_destroyed(b, b.gated).0.phase is Done,
        spec_on_destroyed(b, b.gated).1.release == (!(b.phase is Done) && !b.released),
        !spec_on_destroyed(b, b.gated).1.raise,
{
}

} // verus!
