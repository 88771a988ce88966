//! Finding the player's top-level window by class name: the last window of
//! that class with an owning process wins. The enumeration is the caller's.

use vstd::prelude::*;
use crate::loop_logic::PlayerKind;
use crate::text::str_eq;

verus! {

/// Window class of NetEase Cloud Music.
pub const NETEASE_CLASS: &'static str = "OrpheusBrowserHost";

/// Window class of QQ Music.
pub const TENCENT_CLASS: &'static str = "QQMusic_Daemon_Wnd";

/// Search state over the enumerated windows.
pub struct WindowFinder {
    target_class: String,
    found: Option<(u32, String)>,
}

impl WindowFinder {
    pub closed spec fn target(&self) -> Seq<char> {
        self.target_class@
    }

    /// The window recorded so far: (pid, title).
    pub closed spec fn found(&self) -> Option<(u32, Seq<char>)> {
        match self.found {
            Some((p, t)) => Some((p, t@)),
            None => None,
        }
    }

    /// Look for windows of class `class_name`.
    pub fn new(class_name: &str) -> (r: Self)
        ensures
            r.target() == class_name@,
            r.found() is None,
    {
        WindowFinder { target_class: String::from_str(class_name), found: None }
    }

    /// Whether a window of class `class` is a candidate.
    pub fn class_matches(&self, class: &str) -> (r: bool)
        ensures
            r == (class@ == self.target()),
    {
        str_eq(class, self.target_class.as_str())
    }

    /// Whether a candidate owned by thread `tid` of process `pid` is kept
    /// (both must be known).
    pub fn accepts(&self, tid: u32, pid: u32) -> (r: bool)
        ensures
            r == (tid != 0 && pid != 0),
    {
        tid != 0 && pid != 0
    }

    /// Record a kept candidate; a later one replaces an earlier one.
    pub fn record(&mut self, pid: u32, title: String)
        requires
            pid != 0,
        ensures
            final(self).target() == old(self).target(),
            final(self).found() == Some((pid, title@)),
    {
        self.found = Some((pid, title));
    }

    /// The (title, pid) found, if any.
    pub fn result(self) -> (r: Option<(String, u32)>)
        ensures
            match self.found() {
                Some((p, t)) => r matches Some((rt, rp)) && rp == p && rt@ == t,
                None => r is None,
            },
    {
        match self.found {
            Some((p, t)) => Some((t, p)),
            None => None,
        }
    }
}

/// One enumerated top-level window: class name, owning thread id, owning
/// process id and title.
pub type WindowSeen = (Seq<char>, u32, u32, Seq<char>);

/// What the finder holds after seeing window `w`, looking for `class`:
/// `w` replaces what was found when its class matches and it has a thread
/// and a process (`class_matches`, `accepts`, `record`).
pub open spec fn finder_step(found: Option<(u32, Seq<char>)>, w: WindowSeen, class: Seq<char>) -> Option<
    (u32, Seq<char>),
> {
    if w.0 == class && w.1 != 0 && w.2 != 0 {
        Some((w.2, w.3))
    } else {
        found
    }
}

/// What the finder holds after seeing `ws` in enumeration order.
pub open spec fn finder_run(found: Option<(u32, Seq<char>)>, ws: Seq<WindowSeen>, class: Seq<char>) -> Option<
    (u32, Seq<char>),
>
    decreases ws.len(),
{
    if ws.len() == 0 {
        found
    } else {
        finder_step(finder_run(found, ws.drop_last(), class), ws.last(), class)
    }
}

/// The window accepted with the greatest index: class `class`, a thread and
/// a process.
pub open spec fn is_last_accepted(ws: Seq<WindowSeen>, class: Seq<char>, k: int) -> bool {
    &&& 0 <= k < ws.len()
    &&& ws[k].0 == class && ws[k].1 != 0 && ws[k].2 != 0
    &&& forall|j: int| k < j < ws.len() ==> !(ws[j].0 == class && ws[j].1 != 0 && ws[j].2 != 0)
}

/// Law: over a whole enumeration, the last accepted window wins (its pid and
/// title are found), and nothing is found when no window is accepted.
pub proof fn law_last_window_wins(ws: Seq<WindowSeen>, class: Seq<char>)
    ensures
        forall|k: int| is_last_accepted(ws, class, k) ==> finder_run(None, ws, class) == Some(
            (ws[k].2, ws[k].3),
        ),
        (forall|j: int| 0 <= j < ws.len() ==> !(ws[j].0 == class && ws[j].1 != 0 && ws[j].2 != 0))
            ==> finder_run(None, ws, class) is None,
    decreases ws.len(),
{
    if ws.len() > 0 {
        let init = ws.drop_last();
        law_last_window_wins(init, class);
        let n = ws.len() - 1;
        assert forall|k: int| is_last_accepted(ws, class, k) implies finder_run(None, ws, class)
            == Some((ws[k].2, ws[k].3)) by {
            if k < n {
                assert(!(ws[n].0 == class && ws[n].1 != 0 && ws[n].2 != 0));
                assert(is_last_accepted(init, class, k)) by {
                    assert forall|j: int| k < j < init.len() implies !(init[j].0 == class
                        && init[j].1 != 0 && init[j].2 != 0) by {
                        assert(init[j] == ws[j]);
                    }
                }
                assert(init[k] == ws[k]);
            }
        }
        if forall|j: int| 0 <= j < ws.len() ==> !(ws[j].0 == class && ws[j].1 != 0 && ws[j].2 != 0) {
            assert forall|j: int| 0 <= j < init.len() implies !(init[j].0 == class && init[j].1 != 0
                && init[j].2 != 0) by {
                assert(init[j] == ws[j]);
            }
            assert(!(ws[n].0 == class && ws[n].1 != 0 && ws[n].2 != 0));
        }
    }
}

/// The player whose window is detected: NetEase when its window exists,
/// QQ Music otherwise. Each window is given as (title, pid).
pub fn detect_player(netease: Option<(String, u32)>, tencent: Option<(String, u32)>) -> (r: Option<
    (PlayerKind, u32, String),
>)
    ensures
        match netease {
            Some((t, p)) => r matches Some((k, rp, rt)) && k == PlayerKind::NetEase && rp == p
                && rt@ == t@,
            None => match tencent {
                Some((t, p)) => r matches Some((k, rp, rt)) && k == PlayerKind::Tencent && rp == p
                    && rt@ == t@,
                None => r is None,
            },
        },
{
    match netease {
        Some((title, pid)) => Some((PlayerKind::NetEase, pid, title)),
        None => match tencent {
            Some((title, pid)) => Some((PlayerKind::Tencent, pid, title)),
            None => None,
        },
    }
}

} // verus!
