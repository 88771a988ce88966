use music_rpc::http::{https_get_ok, https_request, split_url, timeout_ms, HttpError};

fn parts(url: &str) -> Result<(String, String, bool), HttpError> {
    split_url(url)
}

#[test]
fn splits_host_and_path() {
    assert_eq!(
        parts("https://music.163.com/api/song/detail/?id=1"),
        Ok(("music.163.com".to_string(), "/api/song/detail/?id=1".to_string(), true))
    );
    assert_eq!(parts("http://example.com"), Ok(("example.com".to_string(), "/".to_string(), false)));
    assert_eq!(parts("https://h/"), Ok(("h".to_string(), "/".to_string(), true)));
    assert_eq!(parts("https://h/a/b"), Ok(("h".to_string(), "/a/b".to_string(), true)));
}

#[test]
fn url_errors() {
    assert_eq!(parts("ftp://example.com/"), Err(HttpError::UnsupportedScheme));
    assert_eq!(parts("HTTPS://example.com/"), Err(HttpError::UnsupportedScheme));
    assert_eq!(parts("https://"), Err(HttpError::EmptyHost));
    assert_eq!(parts("http:///path"), Err(HttpError::EmptyHost));
}

#[test]
fn only_https_is_fetched() {
    assert!(matches!(https_request("http://music.163.com/", 5), Err(HttpError::NotHttps)));
    assert!(matches!(https_request("gopher://x", 5), Err(HttpError::UnsupportedScheme)));
    let req = https_request("https://music.163.com/x?y=1", 5).ok().unwrap();
    assert_eq!(req.host, "music.163.com");
    assert_eq!(req.path, "/x?y=1");
    assert_eq!(req.timeout_ms, 5000);
}

#[test]
fn timeouts_saturate() {
    assert_eq!(timeout_ms(0), 0);
    assert_eq!(timeout_ms(5), 5000);
    assert_eq!(timeout_ms(u32::MAX / 1000), (u32::MAX / 1000) * 1000);
    assert_eq!(timeout_ms(u32::MAX / 1000 + 1), u32::MAX);
    assert_eq!(timeout_ms(u32::MAX), u32::MAX);
}

#[test]
fn best_effort_get() {
    assert_eq!(https_get_ok(Ok(b"body".to_vec())), Some("body".to_string()));
    assert_eq!(https_get_ok(Ok(vec![0x7B, 0xC3, 0x28, 0x7D])), Some("{\u{FFFD}(}".to_string()));
    assert_eq!(https_get_ok(Err(HttpError::Transport("down".to_string()))), None);
    assert_eq!(https_get_ok(Err(HttpError::NotHttps)), None);
}
