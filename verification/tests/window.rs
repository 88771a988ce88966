use music_rpc::config::{autostart_registered, is_first_run};
use music_rpc::loop_logic::PlayerKind;
use music_rpc::window::{detect_player, WindowFinder, NETEASE_CLASS};

#[test]
fn last_matching_window_wins() {
    let mut f = WindowFinder::new(NETEASE_CLASS);
    assert!(!f.class_matches("Chrome_WidgetWin_1"));
    assert!(f.class_matches("OrpheusBrowserHost"));
    assert!(!f.accepts(0, 5));
    assert!(!f.accepts(3, 0));
    assert!(f.accepts(3, 5));
    f.record(5, "first".to_string());
    f.record(6, "second".to_string());
    assert_eq!(f.result(), Some(("second".to_string(), 6)));
    assert_eq!(WindowFinder::new("x").result(), None);
}

#[test]
fn netease_is_preferred() {
    let n = Some(("N".to_string(), 1));
    let t = Some(("T".to_string(), 2));
    assert_eq!(detect_player(n.clone(), t.clone()), Some((PlayerKind::NetEase, 1, "N".to_string())));
    assert_eq!(detect_player(None, t), Some((PlayerKind::Tencent, 2, "T".to_string())));
    assert_eq!(detect_player(None, None), None);
}

#[test]
fn first_run_and_autostart() {
    assert!(is_first_run(false));
    assert!(!is_first_run(true));
    assert!(autostart_registered(Some("C:\\a.exe"), Some("C:\\a.exe")));
    assert!(!autostart_registered(Some("C:\\b.exe"), Some("C:\\a.exe")));
    assert!(!autostart_registered(None, Some("C:\\a.exe")));
    assert!(!autostart_registered(Some("C:\\a.exe"), None));
}

#[test]
fn last_accepted_window_over_an_enumeration() {
    // (class, thread, process, title) in enumeration order
    let windows = [
        ("OrpheusBrowserHost", 1, 10, "a"),
        ("Chrome_WidgetWin_1", 2, 11, "b"),
        ("OrpheusBrowserHost", 3, 12, "c"),
        ("OrpheusBrowserHost", 0, 13, "no thread"),
        ("OrpheusBrowserHost", 4, 0, "no process"),
        ("Other", 5, 14, "d"),
    ];
    let mut f = WindowFinder::new(NETEASE_CLASS);
    for (class, tid, pid, title) in windows {
        if f.class_matches(class) && f.accepts(tid, pid) {
            f.record(pid, title.to_string());
        }
    }
    assert_eq!(f.result(), Some(("c".to_string(), 12)));
}
