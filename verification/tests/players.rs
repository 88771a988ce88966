use music_rpc::players::{
    field_addr, from_api_songs, from_playlist, join_names, netease_api_url, netease_has_song, netease_has_track,
    netease_song_url, netease_track, rip_relative_target, song_id_from, song_id_string_addr,
    tencent_has_song, tencent_track, ApiSong, MetaCache, PlaylistItem, PlaylistTrack, TrackMeta,
    STATUS_PAUSED, STATUS_WAITING, TENCENT_ALBUM, TENCENT_ARTIST, TENCENT_COVER, TENCENT_DURATION,
    TENCENT_SCHEDULE, TENCENT_SONG_ID, TENCENT_STATUS,
};

fn meta(t: &str) -> TrackMeta {
    TrackMeta { title: t.to_string(), artists: "A,B".to_string(), album: "Al".to_string(), cover: "c".to_string() }
}

fn strings(v: &[&str]) -> Vec<String> {
    v.iter().map(|s| s.to_string()).collect()
}

#[test]
fn names_are_joined_with_commas() {
    assert_eq!(join_names(&strings(&[])), "");
    assert_eq!(join_names(&strings(&["A"])), "A");
    assert_eq!(join_names(&strings(&["A", "B", "C"])), "A,B,C");
    assert_eq!(join_names(&strings(&["", ""])), ",");
}

#[test]
fn rip_relative_resolution() {
    // lea rcx, [rip+0x10] at 0x1000: displacement at 0x1003, target 0x1007 + 0x10.
    assert_eq!(rip_relative_target(0x1000, 3, 0x10), 0x1017);
    assert_eq!(rip_relative_target(0x1000, 4, -8), 0x1000);
    assert_eq!(field_addr(0x2000, 0x60), 0x2060);
}

#[test]
fn netease_decisions() {
    assert!(!netease_has_track(STATUS_WAITING));
    assert!(netease_has_track(1));
    assert!(netease_has_track(STATUS_PAUSED));
    assert_eq!(song_id_string_addr(0), None);
    assert_eq!(song_id_string_addr(0x5000), Some(0x5010));
    assert_eq!(song_id_from("123456_abc_def"), "123456");
    assert_eq!(song_id_from("123456"), "123456");
    assert_eq!(song_id_from("_x"), "");
    assert_eq!(netease_song_url("42"), "https://music.163.com/#/song?id=42");
    assert_eq!(
        netease_api_url("42"),
        "http://music.163.com/api/song/detail/?id=42&ids=%5B42%5D"
    );
    let t = netease_track("42".to_string(), STATUS_PAUSED, meta("Song"));
    assert_eq!(t.identity, "42");
    assert_eq!(t.title, "Song");
    assert_eq!(t.artists, "A,B");
    assert_eq!(t.url, "https://music.163.com/#/song?id=42");
    assert!(t.paused);
    assert!(!netease_track("42".to_string(), 1, meta("Song")).paused);
}

fn item(id: &str, track: Option<(&str, &[&str])>) -> PlaylistItem {
    PlaylistItem {
        id: id.to_string(),
        track: track.map(|(name, artists)| PlaylistTrack {
            name: name.to_string(),
            artists: strings(artists),
            album_name: format!("{name} album"),
            album_cover: format!("{name}.jpg"),
        }),
    }
}

#[test]
fn playlist_lookup() {
    let list = vec![
        item("1", Some(("One", &["X"]))),
        item("2", None),
        item("2", Some(("Two", &["Y"]))),
        item("3", Some(("Three", &["P", "Q"]))),
    ];
    let m = from_playlist(&list, "3").unwrap();
    assert_eq!(m.title, "Three");
    assert_eq!(m.artists, "P,Q");
    assert_eq!(m.album, "Three album");
    assert_eq!(m.cover, "Three.jpg");
    // The first entry with the id decides, even without a track.
    assert!(from_playlist(&list, "2").is_none());
    assert!(from_playlist(&list, "9").is_none());
}

#[test]
fn web_api_songs() {
    assert!(from_api_songs(&vec![]).is_none());
    let songs = vec![
        ApiSong { name: "S".into(), artists: strings(&["a", "b"]), album_name: "Al".into(), pic_url: "p".into() },
        ApiSong { name: "T".into(), artists: vec![], album_name: "".into(), pic_url: "".into() },
    ];
    let m = from_api_songs(&songs).unwrap();
    assert_eq!((m.title.as_str(), m.artists.as_str(), m.album.as_str(), m.cover.as_str()), ("S", "a,b", "Al", "p"));
}

#[test]
fn metadata_cache_reads_back_what_was_stored() {
    let mut cache = MetaCache::new();
    assert!(cache.lookup("1").is_none());
    cache.store("1", &meta("One"));
    assert_eq!(cache.lookup("1").unwrap().title, "One");
    assert!(cache.lookup("2").is_none());
    cache.store("2", &meta("Two"));
    assert!(cache.lookup("1").is_none());
    assert_eq!(cache.lookup("2").unwrap().title, "Two");
}

#[test]
fn tencent_decisions() {
    assert!(!tencent_has_song(0));
    assert!(tencent_has_song(7));
    assert_eq!(
        (TENCENT_ARTIST, TENCENT_ALBUM, TENCENT_COVER, TENCENT_SONG_ID, TENCENT_DURATION, TENCENT_SCHEDULE, TENCENT_STATUS),
        (0x18, 0x30, 0x48, 0x60, 0x68, 0x6C, 0x70)
    );
    let t = tencent_track(102065756, 0, "T".into(), "A".into(), "Al".into(), "C".into());
    assert_eq!(t.identity, "102065756");
    assert_eq!(t.url, "https://y.qq.com/n/ryqq/songDetail/102065756");
    assert!(t.paused);
    assert_eq!((t.title.as_str(), t.artists.as_str(), t.album.as_str(), t.cover.as_str()), ("T", "A", "Al", "C"));
    assert!(!tencent_track(1, 1, "".into(), "".into(), "".into(), "".into()).paused);
    assert!(!tencent_track(1, 3, "".into(), "".into(), "".into(), "".into()).paused);
}

#[test]
fn empty_song_id_means_no_song() {
    assert!(!netease_has_song(""));
    assert!(netease_has_song("1234"));
    assert!(!netease_has_song(&song_id_from("_1")));
}
