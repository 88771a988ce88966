use music_rpc::players::Track;
use music_rpc::rpc::{console_presence, presence_for, unix_seconds, RpcLink, CONSOLE_BRAND, FALLBACK_IMAGE, GITHUB_URL};

fn track(cover: &str, album: &str, url: &str) -> Track {
    Track {
        identity: "1".into(),
        title: "Song".into(),
        artists: "Artist".into(),
        album: album.into(),
        cover: cover.into(),
        url: url.into(),
        paused: false,
    }
}

#[test]
fn full_presence() {
    let p = presence_for(&track("http://c/x.jpg", "Album", "https://u/1"), "NetEase CloudMusic", 1_000, 30, 200, true);
    assert_eq!(p.details, "🎵 Song");
    assert_eq!(p.state, "🎤 Artist");
    assert_eq!(p.start, 970);
    assert_eq!(p.end, Some(1_170));
    assert_eq!(p.large_image, "http://c/x.jpg");
    assert_eq!(p.large_text.as_deref(), Some("💿 Album"));
    assert_eq!(p.small_image, "timg");
    assert_eq!(p.small_text, "NetEase CloudMusic");
    assert_eq!(
        p.buttons,
        vec![
            ("🎧 Listen".to_string(), "https://u/1".to_string()),
            ("👏 View App on GitHub".to_string(), GITHUB_URL.to_string())
        ]
    );
}

#[test]
fn sparse_presence_falls_back() {
    let p = presence_for(&track("", "", ""), "QQ", 100, 0, 0, false);
    assert_eq!(p.large_image, FALLBACK_IMAGE);
    assert_eq!(p.large_text, None);
    assert_eq!(p.start, 100);
    assert_eq!(p.end, None);
    assert_eq!(p.buttons.len(), 1);
    assert_eq!(p.buttons[0].1, GITHUB_URL);
}

#[test]
fn link_reconnects_after_failed_send() {
    let mut link = RpcLink::new();
    assert!(link.needs_connect());
    assert!(!link.should_send_clear());
    assert!(!link.connect_finished(false));
    assert!(link.needs_connect());
    assert!(link.connect_finished(true));
    assert!(!link.needs_connect());
    assert!(link.should_send_clear());
    link.send_finished(true);
    assert!(!link.needs_connect());
    link.send_finished(false);
    assert!(link.needs_connect());
    assert!(!link.should_send_clear());
}

#[test]
fn unix_time() {
    assert_eq!(unix_seconds(Some(1_700_000_000)), 1_700_000_000);
    assert_eq!(unix_seconds(None), 0);
}

#[test]
fn console_presence_sets_every_field() {
    let p = console_presence(&track("", "", ""), 1_000, 10, 0);
    assert_eq!(p.start, 990);
    assert_eq!(p.end, Some(990));
    assert_eq!(p.large_image, "");
    assert_eq!(p.large_text.as_deref(), Some("💿 "));
    assert_eq!(p.small_image, "timg");
    assert_eq!(p.small_text, CONSOLE_BRAND);
    assert_eq!(
        p.buttons,
        vec![
            ("🎧 Listen".to_string(), String::new()),
            ("👏 View App on GitHub".to_string(), "https://github.com/Kxnrl/NetEase-Cloud-Music-DiscordRPC".to_string())
        ]
    );
}
