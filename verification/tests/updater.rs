use music_rpc::loop_logic::PlayerKind;
use music_rpc::updater::{AttachPlan, DualPlan, DualPollLoop, PollLoop};

fn win(pid: u32, title: &str) -> Option<(u32, String)> {
    Some((pid, title.to_string()))
}

fn track(id: &str, paused: bool) -> Option<(String, bool)> {
    Some((id.to_string(), paused))
}

#[test]
fn netease_loop_attaches_publishes_and_clears_when_window_goes() {
    let mut poll = PollLoop::new();
    assert!(!poll.has_presence());

    let s = poll.observe_window(win(10, "NetEase"), 0);
    assert!(!s.clear);
    assert!(s.detection_changed);
    assert!(s.plan == AttachPlan::Build(10));
    assert!(poll.attach_finished(10, true, 0));

    let t = poll.observe_track(track("42", false));
    assert!(t.update && !t.clear && t.track_changed);
    assert!(poll.has_presence());

    let s = poll.observe_window(win(10, "NetEase"), 233);
    assert!(!s.detection_changed);
    assert!(s.plan == AttachPlan::UseReader);
    let t = poll.observe_track(track("42", false));
    assert!(t.update && !t.track_changed);

    let t = poll.observe_track(track("42", true));
    assert!(t.clear && !t.update && t.track_changed);
    assert!(poll.has_presence());

    let s = poll.observe_window(None, 466);
    assert!(s.clear);
    assert!(s.detection_changed);
    assert!(s.plan == AttachPlan::NoWindow);
    assert!(!poll.has_presence());

    // Nothing published: the next loss clears nothing.
    let s = poll.observe_window(None, 700);
    assert!(!s.clear);
    assert!(!s.detection_changed);
}

#[test]
fn netease_loop_retries_failed_attach_after_backoff() {
    let mut poll = PollLoop::new();
    let s = poll.observe_window(win(7, ""), 1_000);
    assert!(s.plan == AttachPlan::Build(7));
    assert!(!poll.attach_finished(7, false, 1_000));
    assert!(poll.observe_window(win(7, ""), 2_999).plan == AttachPlan::Wait);
    assert!(poll.observe_window(win(7, ""), 3_000).plan == AttachPlan::Build(7));
    // A different process is attached at once.
    assert!(poll.observe_window(win(8, ""), 3_001).plan == AttachPlan::Build(8));
}

#[test]
fn netease_loop_clears_when_nothing_plays() {
    let mut poll = PollLoop::new();
    poll.observe_window(win(1, ""), 0);
    poll.attach_finished(1, true, 0);
    let t = poll.observe_track(None);
    assert!(!t.clear && !t.update);
    poll.observe_track(track("9", false));
    let t = poll.observe_track(None);
    assert!(t.clear && !t.update);
    assert!(!poll.has_presence());
    // The same track afterwards counts as a change again.
    assert!(poll.observe_track(track("9", false)).track_changed);
}

fn dual(kind: PlayerKind, pid: u32) -> Option<(PlayerKind, u32, String)> {
    Some((kind, pid, String::new()))
}

#[test]
fn dual_loop_remembers_failures_and_switches_players() {
    let mut poll = DualPollLoop::new();
    let s = poll.observe_window(dual(PlayerKind::Tencent, 5));
    assert!(s.detection_changed);
    assert!(s.plan == DualPlan::Build(PlayerKind::Tencent, 5));
    assert!(!poll.attach_finished(PlayerKind::Tencent, 5, false));
    assert!(poll.observe_window(dual(PlayerKind::Tencent, 5)).plan == DualPlan::Skip);
    assert!(poll.observe_window(dual(PlayerKind::Tencent, 5)).plan == DualPlan::Skip);

    let s = poll.observe_window(dual(PlayerKind::NetEase, 9));
    assert!(s.plan == DualPlan::Build(PlayerKind::NetEase, 9));
    assert!(poll.attach_finished(PlayerKind::NetEase, 9, true));
    assert!(poll.observe_window(dual(PlayerKind::NetEase, 9)).plan == DualPlan::UseReader);

    let t = poll.observe_track(PlayerKind::NetEase, Some(false));
    assert_eq!(t.update, Some(PlayerKind::NetEase));
    assert_eq!(t.clear, None);
    let t = poll.observe_track(PlayerKind::NetEase, Some(true));
    assert_eq!(t.clear, Some(PlayerKind::NetEase));
    assert_eq!(t.update, None);
    let t = poll.observe_track(PlayerKind::NetEase, None);
    assert_eq!(t.clear, Some(PlayerKind::NetEase));
    let t = poll.observe_track(PlayerKind::NetEase, None);
    assert_eq!(t.clear, None);

    assert!(poll.observe_window(None).plan == DualPlan::NoWindow);
    assert!(poll.observe_window(dual(PlayerKind::Tencent, 5)).plan == DualPlan::Build(PlayerKind::Tencent, 5));
}

#[test]
fn dual_loop_clears_stale_presence_on_switch_and_window_loss() {
    let mut poll = DualPollLoop::new();
    assert_eq!(poll.observe_window(dual(PlayerKind::NetEase, 9)).clear, None);
    poll.attach_finished(PlayerKind::NetEase, 9, true);
    poll.observe_track(PlayerKind::NetEase, Some(false));
    // Same player: nothing to clear.
    assert_eq!(poll.observe_window(dual(PlayerKind::NetEase, 9)).clear, None);
    // QQ Music takes over: NetEase's presence goes.
    let s = poll.observe_window(dual(PlayerKind::Tencent, 5));
    assert_eq!(s.clear, Some(PlayerKind::NetEase));
    assert!(s.plan == DualPlan::Build(PlayerKind::Tencent, 5));
    // It is cleared once only.
    assert_eq!(poll.observe_window(dual(PlayerKind::Tencent, 5)).clear, None);
    poll.attach_finished(PlayerKind::Tencent, 5, true);
    poll.observe_track(PlayerKind::Tencent, Some(false));
    // The window goes: QQ Music's presence goes.
    assert_eq!(poll.observe_window(None).clear, Some(PlayerKind::Tencent));
    assert_eq!(poll.observe_window(None).clear, None);
}

#[test]
fn netease_loop_stop_reports_and_forgets_presence() {
    let mut poll = PollLoop::new();
    assert!(!poll.stop());
    poll.observe_window(win(1, ""), 0);
    poll.attach_finished(1, true, 0);
    poll.observe_track(track("9", false));
    assert!(poll.stop());
    assert!(!poll.has_presence());
    assert!(!poll.stop());
}
