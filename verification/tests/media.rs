use music_rpc::media::{
    any_active_session, audio_session_matches, image_file_name, media_session_matches,
    netease_playing, AudioSession, MediaSession,
};

fn audio(name: &str, active: bool, peak_loud: Option<bool>) -> AudioSession {
    AudioSession { image_name: name.to_string(), active, peak_loud }
}

#[test]
fn audio_sessions() {
    let none: Vec<AudioSession> = vec![];
    assert_eq!(any_active_session("cloudmusic", &none), None);
    let others = vec![audio("chrome.exe", true, Some(true))];
    assert_eq!(any_active_session("cloudmusic", &others), None);
    let paused = vec![audio("CloudMusic.exe", true, Some(false)), audio("chrome.exe", true, Some(true))];
    assert_eq!(any_active_session("cloudmusic", &paused), Some(false));
    let playing = vec![audio("cloudmusic.exe", false, Some(false)), audio("cloudmusic.exe", false, Some(true))];
    assert_eq!(any_active_session("cloudmusic", &playing), Some(true));
    // Without a meter the session state decides.
    assert_eq!(any_active_session("cloudmusic", &vec![audio("cloudmusic.exe", true, None)]), Some(true));
    assert_eq!(any_active_session("cloudmusic", &vec![audio("cloudmusic.exe", false, None)]), Some(false));
    assert!(audio_session_matches("CLOUDMUSIC.EXE", "cloudmusic"));
    assert!(audio_session_matches("cloudmusic.exe", "CloudMusic"));
    assert!(!audio_session_matches("qqmusic.exe", "CloudMusic"));
    assert_eq!(any_active_session("CloudMusic", &vec![audio("cloudmusic.exe", true, None)]), Some(true));
}

fn media(app: &str, playing: bool) -> MediaSession {
    MediaSession { app_id: app.to_string(), playing }
}

#[test]
fn media_sessions() {
    assert_eq!(netease_playing("CloudMusic", &vec![media("Spotify.exe", true)]), None);
    assert_eq!(netease_playing("CloudMusic", &vec![media("cloudmusic.exe", false)]), Some(false));
    assert_eq!(
        netease_playing("cloudmusic", &vec![media("CLOUDMUSIC.EXE", false), media("x!CloudMusic", true)]),
        Some(true)
    );
    assert!(media_session_matches("NetEase.CloudMusic", "CLOUDMUSIC"));
}

#[test]
fn image_file_names() {
    assert_eq!(image_file_name("C:\\Program Files\\NetEase\\cloudmusic.exe"), "cloudmusic.exe");
    assert_eq!(image_file_name("/usr/bin/app"), "app");
    assert_eq!(image_file_name("a/b\\c"), "c");
    assert_eq!(image_file_name("plain.exe"), "plain.exe");
    assert_eq!(image_file_name("dir\\"), "");
    assert_eq!(image_file_name(""), "");
}
