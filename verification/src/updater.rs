//! The decisions of the poll loop. The driver (outside this crate's verified
//! part) detects the player window, builds readers, reads tracks, talks to
//! Discord and sleeps; after each observation it asks a loop state here what
//! to do next.
//!
//! [`PollLoop`] drives NetEase alone: it clears the presence when the window
//! disappears and retries a failed reader attach after a backoff.
//! [`DualPollLoop`] drives NetEase and QQ Music with one Discord client each.

use vstd::prelude::*;
use crate::loop_logic::{
    presence_to_clear, should_clear_presence, should_retry_attach, spec_presence_to_clear, PlayerKind,
    ATTACH_RETRY_MS,
};

verus! {

/// Commands from the tray / UI thread.
pub enum Command {
    Exit,
}

/// Reader state cached for one process id.
#[derive(Clone, Copy, PartialEq, Eq, Structural)]
pub enum Attach {
    /// A reader is attached to the process.
    Ready,
    /// Attaching failed; it may be tried again from `next_retry_ms` on.
    Failed { next_retry_ms: u128 },
}

/// What the driver does about the reader after a window observation.
#[derive(Clone, Copy, PartialEq, Eq, Structural)]
pub enum AttachPlan {
    /// No player window: drop any reader, sleep and poll again.
    NoWindow,
    /// (Re)build the reader for this process id, then report it with `attach_finished`.
    Build(u32),
    /// Use the reader already attached.
    UseReader,
    /// A recent attach failed: sleep and poll again.
    Wait,
}

/// The outcome of observing the player window.
pub struct WindowStep {
    /// Clear the published presence (the window disappeared).
    pub clear: bool,
    /// The detected window (pid, title) differs from the previous tick.
    pub detection_changed: bool,
    pub plan: AttachPlan,
}

/// The outcome of observing the current track.
pub struct TrackStep {
    /// Clear the presence (nothing is playing, or the track is paused).
    pub clear: bool,
    /// Publish the track (it is playing).
    pub update: bool,
    /// The (identity, paused) pair differs from the previous tick.
    pub track_changed: bool,
}

/// The abstract state of [`PollLoop`].
pub struct PollState {
    pub had_presence: bool,
    pub last_detect: Option<(u32, Seq<char>)>,
    pub last_track: Option<(Seq<char>, bool)>,
    pub cached: Option<(u32, Attach)>,
}

/// State of the NetEase poll loop.
pub struct PollLoop {
    had_presence: bool,
    last_detect: Option<(u32, String)>,
    last_track: Option<(String, bool)>,
    cached: Option<(u32, Attach)>,
}

pub open spec fn opt_pair_view(o: Option<(u32, String)>) -> Option<(u32, Seq<char>)> {
    match o {
        Some((p, s)) => Some((p, s@)),
        None => None,
    }
}

pub open spec fn opt_track_view(o: Option<(String, bool)>) -> Option<(Seq<char>, bool)> {
    match o {
        Some((s, b)) => Some((s@, b)),
        None => None,
    }
}

impl View for PollLoop {
    type V = PollState;

    closed spec fn view(&self) -> PollState {
        PollState {
            had_presence: self.had_presence,
            last_detect: opt_pair_view(self.last_detect),
            last_track: opt_track_view(self.last_track),
            cached: self.cached,
        }
    }
}

/// A track is remembered only while a presence is published.
pub open spec fn poll_wf(s: PollState) -> bool {
    s.last_track is Some ==> s.had_presence
}

/// The reader plan for a window observation at time `now`.
pub open spec fn window_plan(s: PollState, target: Option<u32>, now: u128) -> AttachPlan {
    match target {
        None => AttachPlan::NoWindow,
        Some(pid) => match s.cached {
            Some((p, Attach::Ready)) => if p == pid {
                AttachPlan::UseReader
            } else {
                AttachPlan::Build(pid)
            },
            Some((p, Attach::Failed { next_retry_ms })) => if p == pid && now < next_retry_ms {
                AttachPlan::Wait
            } else {
                AttachPlan::Build(pid)
            },
            None => AttachPlan::Build(pid),
        },
    }
}

/// The state after a window observation.
pub open spec fn after_window(s: PollState, target: Option<(u32, Seq<char>)>) -> PollState {
    let clear = s.had_presence && target is None;
    PollState {
        had_presence: s.had_presence && target is Some,
        last_detect: target,
        last_track: if clear {
            None
        } else {
            s.last_track
        },
        cached: if target is None {
            None
        } else {
            s.cached
        },
    }
}

/// The state after an attach attempt for `pid` at time `now`.
pub open spec fn after_attach(s: PollState, pid: u32, ok: bool, now: u128) -> PollState {
    PollState {
        cached: Some(
            (
                pid,
                if ok {
                    Attach::Ready
                } else {
                    Attach::Failed { next_retry_ms: (now + ATTACH_RETRY_MS) as u128 }
                },
            ),
        ),
        ..s
    }
}

/// The state after a track observation.
pub open spec fn after_track(s: PollState, track: Option<(Seq<char>, bool)>) -> PollState {
    PollState { had_presence: track is Some, last_track: track, ..s }
}

pub open spec fn target_pid(t: Option<(u32, Seq<char>)>) -> Option<u32> {
    match t {
        Some((p, _)) => Some(p),
        None => None,
    }
}

fn same_detect(a: &Option<(u32, String)>, b: &Option<(u32, String)>) -> (r: bool)
    ensures
        r == (opt_pair_view(*a) == opt_pair_view(*b)),
{
    match (a, b) {
        (Some((pa, ta)), Some((pb, tb))) => *pa == *pb && ta.eq(tb),
        (None, None) => true,
        _ => false,
    }
}

fn same_track(a: &Option<(String, bool)>, id: &String, paused: bool) -> (r: bool)
    ensures
        r == (opt_track_view(*a) == Some((id@, paused))),
{
    match a {
        Some((ia, pa)) => *pa == paused && ia.eq(id),
        None => false,
    }
}

fn clone_detect(a: &Option<(u32, String)>) -> (r: Option<(u32, String)>)
    ensures
        opt_pair_view(r) == opt_pair_view(*a),
{
    match a {
        Some((p, t)) => Some((*p, t.clone())),
        None => None,
    }
}

impl PollLoop {
    pub closed spec fn wf(&self) -> bool {
        poll_wf(self@)
    }

    /// A loop that has published nothing and attached to nothing.
    pub fn new() -> (r: Self)
        ensures
            r.wf(),
            r@ == (PollState {
                had_presence: false,
                last_detect: None,
                last_track: None,
                cached: None,
            }),
    {
        PollLoop { had_presence: false, last_detect: None, last_track: None, cached: None }
    }

    /// Whether a presence is currently published (so stopping must clear it).
    pub fn has_presence(&self) -> (r: bool)
        ensures
            r == self@.had_presence,
    {
        self.had_presence
    }

    /// Stop the loop: returns whether a presence is showing (it must then be
    /// cleared), and forgets it.
    pub fn stop(&mut self) -> (r: bool)
        requires
            old(self).wf(),
        ensures
            final(self).wf(),
            r == old(self)@.had_presence,
            final(self)@ == (PollState { had_presence: false, last_track: None, ..old(self)@ }),
    {
        let had = self.had_presence;
        self.had_presence = false;
        self.last_track = None;
        had
    }

    /// Observe the player window (`target` is its pid and title, if any) at
    /// time `now_ms`.
    pub fn observe_window(&mut self, target: Option<(u32, String)>, now_ms: u128) -> (r:
        WindowStep)
        requires
            old(self).wf(),
        ensures
            final(self).wf(),
            r.clear == (old(self)@.had_presence && target is None),
            r.detection_changed == (old(self)@.last_detect != opt_pair_view(target)),
            r.plan == window_plan(old(self)@, target_pid(opt_pair_view(target)), now_ms),
            final(self)@ == after_window(old(self)@, opt_pair_view(target)),
    {
        let detected = target.is_some();
        let clear = should_clear_presence(self.had_presence, detected);
        if clear {
            self.had_presence = false;
            self.last_track = None;
        }
        let detection_changed = !same_detect(&self.last_detect, &target);
        self.last_detect = clone_detect(&target);
        let plan = match target {
            None => {
                self.cached = None;
                AttachPlan::NoWindow
            },
            Some((pid, _)) => match self.cached {
                Some((p, Attach::Ready)) => if p == pid {
                    AttachPlan::UseReader
                } else {
                    AttachPlan::Build(pid)
                },
                Some((p, Attach::Failed { next_retry_ms })) => if p == pid && !should_retry_attach(
                    now_ms,
                    next_retry_ms,
                ) {
                    AttachPlan::Wait
                } else {
                    AttachPlan::Build(pid)
                },
                None => AttachPlan::Build(pid),
            },
        };
        WindowStep { clear, detection_changed, plan }
    }

    /// Report the outcome of building the reader for `pid` at time `now_ms`.
    /// Returns whether a reader is now attached.
    pub fn attach_finished(&mut self, pid: u32, ok: bool, now_ms: u128) -> (r: bool)
        requires
            old(self).wf(),
            now_ms + ATTACH_RETRY_MS <= u128::MAX,
        ensures
            final(self).wf(),
            r == ok,
            final(self)@ == after_attach(old(self)@, pid, ok, now_ms),
    {
        if ok {
            self.cached = Some((pid, Attach::Ready));
        } else {
            self.cached = Some((pid, Attach::Failed { next_retry_ms: now_ms + ATTACH_RETRY_MS }));
        }
        ok
    }

    /// Observe the reader's current track: its identity and whether it is
    /// paused, or `None` when nothing resolvable is playing.
    pub fn observe_track(&mut self, track: Option<(String, bool)>) -> (r: TrackStep)
        requires
            old(self).wf(),
        ensures
            final(self).wf(),
            final(self)@ == after_track(old(self)@, opt_track_view(track)),
            match track {
                None => r.clear == old(self)@.had_presence && !r.update && !r.track_changed,
                Some((id, paused)) => {
                    &&& r.clear == paused
                    &&& r.update == !paused
                    &&& r.track_changed == (old(self)@.last_track != Some((id@, paused)))
                },
            },
    {
        match track {
            None => {
                let clear = self.had_presence;
                self.had_presence = false;
                self.last_track = None;
                TrackStep { clear, update: false, track_changed: false }
            },
            Some((id, paused)) => {
                let track_changed = !same_track(&self.last_track, &id, paused);
                self.last_track = Some((id, paused));
                self.had_presence = true;
                TrackStep { clear: paused, update: !paused, track_changed }
            },
        }
    }
}

/// Law: the NetEase loop reuses its reader exactly when one is attached to
/// the observed process; it waits exactly when the last attach to that
/// process failed and its retry time has not come; otherwise it builds a
/// reader for that process. A tick without a window drops the reader and
/// clears what was published; a tick with a window keeps both.
pub proof fn law_poll_plan_exact(s: PollState, pid: u32, title: Seq<char>, now: u128)
    ensures
        (window_plan(s, Some(pid), now) == AttachPlan::UseReader) <==> s.cached == Some(
            (pid, Attach::Ready),
        ),
        (window_plan(s, Some(pid), now) == AttachPlan::Wait) <==> (s.cached matches Some(
            (p, Attach::Failed { next_retry_ms }),
        ) && p == pid && now < next_retry_ms),
        (window_plan(s, Some(pid), now) == AttachPlan::Build(pid)) <==> !(s.cached == Some(
            (pid, Attach::Ready),
        ) || (s.cached matches Some((p, Attach::Failed { next_retry_ms })) && p == pid && now
            < next_retry_ms)),
        window_plan(s, None, now) == AttachPlan::NoWindow,
        after_window(s, None).cached is None,
        !after_window(s, None).had_presence,
        after_window(s, Some((pid, title))).cached == s.cached,
        after_window(s, Some((pid, title))).had_presence == s.had_presence,
        after_window(s, Some((pid, title))).last_detect == Some((pid, title)),
{
}

/// Law: after a track is observed it counts as published (a paused one is
/// cleared, but still remembered as shown), and after "nothing playing" no
/// presence and no track are remembered; the reader and the window are kept.
pub proof fn law_track_step_exact(s: PollState, track: Option<(Seq<char>, bool)>)
    ensures
        after_track(s, track).had_presence == (track is Some),
        after_track(s, track).last_track == track,
        after_track(s, track).cached == s.cached,
        after_track(s, track).last_detect == s.last_detect,
{
}

/// Law: whenever a presence is published and the window disappears, the
/// observation clears it, and afterwards nothing counts as published.
pub proof fn law_window_loss_clears(s: PollState)
    requires
        s.had_presence,
    ensures
        after_window(s, None).had_presence == false,
        after_window(s, None).last_track is None,
        window_plan(s, None, 0) == AttachPlan::NoWindow,
{
}

/// Law: every transition keeps "a remembered track implies a published presence".
pub proof fn law_poll_invariant(
    s: PollState,
    target: Option<(u32, Seq<char>)>,
    pid: u32,
    ok: bool,
    now: u128,
    track: Option<(Seq<char>, bool)>,
)
    requires
        poll_wf(s),
    ensures
        poll_wf(after_window(s, target)),
        poll_wf(after_attach(s, pid, ok, now)),
        poll_wf(after_track(s, track)),
{
}

/// Law: once a reader is attached to a process, observing that same process
/// again reuses it (no rebuild), whatever the time.
pub proof fn law_attached_reader_is_reused(s: PollState, pid: u32, title: Seq<char>, t: u128, now: u128)
    requires
        t + ATTACH_RETRY_MS <= u128::MAX,
    ensures
        ({
            let a = after_window(after_attach(s, pid, true, t), Some((pid, title)));
            window_plan(after_attach(s, pid, true, t), Some(pid), now) == AttachPlan::UseReader
                && window_plan(a, Some(pid), now) == AttachPlan::UseReader
        }),
{
}

/// Law: after a failed attach at time `t`, the same process is attached again
/// exactly when at least `ATTACH_RETRY_MS` have passed.
pub proof fn law_failed_attach_backoff(s: PollState, pid: u32, t: u128, now: u128)
    requires
        t + ATTACH_RETRY_MS <= u128::MAX,
    ensures
        window_plan(after_attach(s, pid, false, t), Some(pid), now) == (if now >= t
            + ATTACH_RETRY_MS {
            AttachPlan::Build(pid)
        } else {
            AttachPlan::Wait
        }),
{
}

/// Law: a different process always gets a fresh reader.
pub proof fn law_new_process_rebuilds(s: PollState, pid: u32, ok: bool, t: u128, other: u32, now: u128)
    requires
        t + ATTACH_RETRY_MS <= u128::MAX,
        other != pid,
    ensures
        window_plan(after_attach(s, pid, ok, t), Some(other), now) == AttachPlan::Build(other),
{
}


/// One tick on the window of process `pid` (titled `title`) at time `now`:
/// the window is observed and, when the plan says so, the reader is built
/// with outcome `ok`.
pub open spec fn tick(s: PollState, pid: u32, title: Seq<char>, now: u128, ok: bool) -> PollState {
    let s1 = after_window(s, Some((pid, title)));
    if window_plan(s, Some(pid), now) == AttachPlan::Build(pid) {
        after_attach(s1, pid, ok, now)
    } else {
        s1
    }
}

/// The state after the ticks `ts` (time and attach outcome of each), in order,
/// on the same process.
pub open spec fn ticks(s: PollState, pid: u32, title: Seq<char>, ts: Seq<(u128, bool)>) -> PollState
    decreases ts.len(),
{
    if ts.len() == 0 {
        s
    } else {
        let p = ts.drop_last();
        tick(ticks(s, pid, title, p), pid, title, ts.last().0, ts.last().1)
    }
}

/// Law: once a reader is attached to a process, it is kept and reused on
/// every later tick on that process, whatever the times: the reader is not
/// built again.
pub proof fn law_reader_kept_over_ticks(s: PollState, pid: u32, title: Seq<char>, ts: Seq<(u128, bool)>)
    requires
        s.cached == Some((pid, Attach::Ready)),
    ensures
        ticks(s, pid, title, ts).cached == Some((pid, Attach::Ready)),
        forall|i: int|
            0 <= i < ts.len() ==> window_plan(#[trigger] ticks(s, pid, title, ts.take(i)), Some(pid), ts[i].0)
                == AttachPlan::UseReader,
    decreases ts.len(),
{
    if ts.len() > 0 {
        let p = ts.drop_last();
        law_reader_kept_over_ticks(s, pid, title, p);
        assert forall|i: int| 0 <= i < ts.len() implies window_plan(
            #[trigger] ticks(s, pid, title, ts.take(i)),
            Some(pid),
            ts[i].0,
        ) == AttachPlan::UseReader by {
            if i < p.len() {
                assert(ts.take(i) =~= p.take(i));
                assert(ts[i] == p[i]);
            } else {
                assert(ts.take(i) =~= p);
            }
        }
    }
}

/// Law: after an attach failed with retry time `deadline`, every tick on the
/// same process before `deadline` waits (the reader is not built and the
/// deadline stays), and the first tick at or after it builds the reader.
pub proof fn law_backoff_over_ticks(
    s: PollState,
    pid: u32,
    title: Seq<char>,
    deadline: u128,
    ts: Seq<(u128, bool)>,
    now: u128,
)
    requires
        s.cached == Some((pid, Attach::Failed { next_retry_ms: deadline })),
        forall|i: int| 0 <= i < ts.len() ==> (#[trigger] ts[i]).0 < deadline,
    ensures
        ticks(s, pid, title, ts).cached == s.cached,
        forall|i: int|
            0 <= i < ts.len() ==> window_plan(#[trigger] ticks(s, pid, title, ts.take(i)), Some(pid), ts[i].0)
                == AttachPlan::Wait,
        now >= deadline ==> window_plan(ticks(s, pid, title, ts), Some(pid), now) == AttachPlan::Build(
            pid,
        ),
    decreases ts.len(),
{
    if ts.len() > 0 {
        let p = ts.drop_last();
        assert forall|i: int| 0 <= i < p.len() implies (#[trigger] p[i]).0 < deadline by {
            assert(p[i] == ts[i]);
        }
        law_backoff_over_ticks(s, pid, title, deadline, p, now);
        assert(ts.last() == ts[ts.len() - 1]);
        assert forall|i: int| 0 <= i < ts.len() implies window_plan(
            #[trigger] ticks(s, pid, title, ts.take(i)),
            Some(pid),
            ts[i].0,
        ) == AttachPlan::Wait by {
            if i < p.len() {
                assert(ts.take(i) =~= p.take(i));
                assert(ts[i] == p[i]);
            } else {
                assert(ts.take(i) =~= p);
            }
        }
    }
}

// ---------------------------------------------------------------------------
// NetEase + QQ Music loop
// ---------------------------------------------------------------------------

/// Reader plan of the two-player loop.
#[derive(Clone, Copy, PartialEq, Eq, Structural)]
pub enum DualPlan {
    /// No player window: drop any reader, sleep and poll again.
    NoWindow,
    /// Build the reader for this player and process, then report it.
    Build(PlayerKind, u32),
    /// Use the reader already attached.
    UseReader,
    /// Attaching to this player and process failed before: stay quiet until
    /// the window or the process changes.
    Skip,
}

/// The outcome of observing the players' windows.
pub struct DualWindowStep {
    /// The player whose published presence is to be cleared: its window is
    /// gone, or the other player is now detected.
    pub clear: Option<PlayerKind>,
    pub detection_changed: bool,
    pub plan: DualPlan,
}

/// The outcome of observing the current track of the two-player loop.
pub struct DualTrackStep {
    /// The player whose presence is to be cleared.
    pub clear: Option<PlayerKind>,
    /// The player whose presence is to be published.
    pub update: Option<PlayerKind>,
}

/// The abstract state of [`DualPollLoop`].
pub struct DualState {
    pub last_rpc: Option<PlayerKind>,
    pub last_detect: Option<(PlayerKind, u32, Seq<char>)>,
    /// (player, pid, attached?) of the cached reader.
    pub cached: Option<(PlayerKind, u32, bool)>,
}

/// State of the loop that follows NetEase and QQ Music.
pub struct DualPollLoop {
    last_rpc: Option<PlayerKind>,
    last_detect: Option<(PlayerKind, u32, String)>,
    cached: Option<(PlayerKind, u32, bool)>,
}

pub open spec fn opt_detect_view(o: Option<(PlayerKind, u32, String)>) -> Option<
    (PlayerKind, u32, Seq<char>),
> {
    match o {
        Some((k, p, s)) => Some((k, p, s@)),
        None => None,
    }
}

impl View for DualPollLoop {
    type V = DualState;

    closed spec fn view(&self) -> DualState {
        DualState {
            last_rpc: self.last_rpc,
            last_detect: opt_detect_view(self.last_detect),
            cached: self.cached,
        }
    }
}

/// The reader plan for an observation of `target` (player and pid).
pub open spec fn dual_plan(s: DualState, target: Option<(PlayerKind, u32)>) -> DualPlan {
    match target {
        None => DualPlan::NoWindow,
        Some((k, pid)) => match s.cached {
            Some((ck, cp, attached)) => if ck == k && cp == pid {
                if attached {
                    DualPlan::UseReader
                } else {
                    DualPlan::Skip
                }
            } else {
                DualPlan::Build(k, pid)
            },
            None => DualPlan::Build(k, pid),
        },
    }
}

pub open spec fn detect_kind(t: Option<(PlayerKind, u32, Seq<char>)>) -> Option<PlayerKind> {
    match t {
        Some((k, _, _)) => Some(k),
        None => None,
    }
}

/// The state after observing the detected window `target`.
pub open spec fn dual_after_window(s: DualState, target: Option<(PlayerKind, u32, Seq<char>)>) -> DualState {
    DualState {
        last_rpc: if spec_presence_to_clear(s.last_rpc, detect_kind(target)) is Some {
            None
        } else {
            s.last_rpc
        },
        last_detect: target,
        cached: if target is None {
            None
        } else {
            s.cached
        },
    }
}

pub open spec fn detect_key(t: Option<(PlayerKind, u32, Seq<char>)>) -> Option<(PlayerKind, u32)> {
    match t {
        Some((k, p, _)) => Some((k, p)),
        None => None,
    }
}

fn same_dual_detect(a: &Option<(PlayerKind, u32, String)>, b: &Option<(PlayerKind, u32, String)>) -> (r:
    bool)
    ensures
        r == (opt_detect_view(*a) == opt_detect_view(*b)),
{
    match (a, b) {
        (Some((ka, pa, ta)), Some((kb, pb, tb))) => *ka == *kb && *pa == *pb && ta.eq(tb),
        (None, None) => true,
        _ => false,
    }
}

impl DualPollLoop {
    /// A loop that has published nothing and attached to nothing.
    pub fn new() -> (r: Self)
        ensures
            r@ == (DualState { last_rpc: None, last_detect: None, cached: None }),
    {
        DualPollLoop { last_rpc: None, last_detect: None, cached: None }
    }

    /// Observe the detected player window: its player, pid and title. A
    /// presence published for a player whose window is gone, or for the other
    /// player than the one detected now, is to be cleared.
    pub fn observe_window(&mut self, target: Option<(PlayerKind, u32, String)>) -> (r:
        DualWindowStep)
        ensures
            r.clear == spec_presence_to_clear(old(self)@.last_rpc, detect_kind(opt_detect_view(target))),
            r.detection_changed == (old(self)@.last_detect != opt_detect_view(target)),
            r.plan == dual_plan(old(self)@, detect_key(opt_detect_view(target))),
            final(self)@ == dual_after_window(old(self)@, opt_detect_view(target)),
            target is None ==> final(self)@.cached is None && r.plan == DualPlan::NoWindow,
            r.plan == DualPlan::UseReader ==> (target matches Some((k, p, _)) && old(self)@.cached
                == Some((k, p, true))),
    {
        let detected = match &target {
            Some((k, _, _)) => Some(*k),
            None => None,
        };
        let clear = presence_to_clear(self.last_rpc, detected);
        if clear.is_some() {
            self.last_rpc = None;
        }
        let detection_changed = !same_dual_detect(&self.last_detect, &target);
        let plan = match &target {
            None => {
                self.cached = None;
                DualPlan::NoWindow
            },
            Some((k, pid, _)) => match self.cached {
                Some((ck, cp, attached)) => if ck == *k && cp == *pid {
                    if attached {
                        DualPlan::UseReader
                    } else {
                        DualPlan::Skip
                    }
                } else {
                    DualPlan::Build(*k, *pid)
                },
                None => DualPlan::Build(*k, *pid),
            },
        };
        self.last_detect = target;
        DualWindowStep { clear, detection_changed, plan }
    }

    /// Report whether building the reader for `kind` / `pid` succeeded.
    pub fn attach_finished(&mut self, kind: PlayerKind, pid: u32, ok: bool) -> (r: bool)
        ensures
            r == ok,
            final(self)@ == (DualState { cached: Some((kind, pid, ok)), ..old(self)@ }),
    {
        self.cached = Some((kind, pid, ok));
        ok
    }

    /// Observe the track of the player `kind`: `Some(paused)`, or `None` when
    /// nothing resolvable is playing.
    pub fn observe_track(&mut self, kind: PlayerKind, track: Option<bool>) -> (r: DualTrackStep)
        ensures
            match track {
                None => {
                    &&& r.clear == old(self)@.last_rpc
                    &&& r.update is None
                    &&& final(self)@ == (DualState { last_rpc: None, ..old(self)@ })
                },
                Some(paused) => {
                    &&& r.clear == (if paused {
                        Some(kind)
                    } else {
                        None
                    })
                    &&& r.update == (if paused {
                        None
                    } else {
                        Some(kind)
                    })
                    &&& final(self)@ == (DualState { last_rpc: Some(kind), ..old(self)@ })
                },
            },
    {
        match track {
            None => {
                let clear = self.last_rpc;
                self.last_rpc = None;
                DualTrackStep { clear, update: None }
            },
            Some(paused) => {
                self.last_rpc = Some(kind);
                if paused {
                    DualTrackStep { clear: Some(kind), update: None }
                } else {
                    DualTrackStep { clear: None, update: Some(kind) }
                }
            },
        }
    }
}

/// Law: a presence published for one player is cleared on the tick its
/// window is gone or the other player is detected, and is kept while the same
/// player stays detected.
pub proof fn law_dual_stale_presence_cleared(
    s: DualState,
    kind: PlayerKind,
    target: Option<(PlayerKind, u32, Seq<char>)>,
)
    requires
        s.last_rpc == Some(kind),
    ensures
        detect_kind(target) != Some(kind) ==> spec_presence_to_clear(s.last_rpc, detect_kind(target))
            == Some(kind) && dual_after_window(s, target).last_rpc is None,
        detect_kind(target) == Some(kind) ==> spec_presence_to_clear(s.last_rpc, detect_kind(target))
            is None && dual_after_window(s, target).last_rpc == Some(kind),
{
}

/// Law: the two-player loop reuses a reader only for the player and the
/// process it was built for, and only when building it succeeded; it skips
/// only the player and process whose build failed; any other player or
/// process gets a reader built for it. A tick without a window forgets the
/// reader, so the next window is always built for.
pub proof fn law_dual_reader_only_for_its_process(
    s: DualState,
    kind: PlayerKind,
    pid: u32,
    target: Option<(PlayerKind, u32, Seq<char>)>,
)
    ensures
        (dual_plan(s, Some((kind, pid))) == DualPlan::UseReader) <==> s.cached == Some(
            (kind, pid, true),
        ),
        (dual_plan(s, Some((kind, pid))) == DualPlan::Skip) <==> s.cached == Some((kind, pid, false)),
        (dual_plan(s, Some((kind, pid))) == DualPlan::Build(kind, pid)) <==> !(s.cached == Some(
            (kind, pid, true),
        ) || s.cached == Some((kind, pid, false))),
        dual_plan(s, None) == DualPlan::NoWindow,
        dual_after_window(s, None).cached is None,
        dual_plan(dual_after_window(s, None), Some((kind, pid))) == DualPlan::Build(kind, pid),
        target is Some ==> dual_after_window(s, target).cached == s.cached,
        dual_after_window(s, target).last_detect == target,
{
}

/// Law: a failed attach is not retried while the same player and process stay
/// detected; it is retried as soon as either changes.
pub proof fn law_dual_failed_attach_not_retried(
    s: DualState,
    kind: PlayerKind,
    pid: u32,
    other: (PlayerKind, u32),
)
    requires
        other != (kind, pid),
    ensures
        dual_plan(DualState { cached: Some((kind, pid, false)), ..s }, Some((kind, pid)))
            == DualPlan::Skip,
        dual_plan(DualState { cached: Some((kind, pid, false)), ..s }, Some(other))
            == DualPlan::Build(other.0, other.1),
{
}

} // verus!
