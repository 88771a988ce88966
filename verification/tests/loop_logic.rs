use music_rpc::loop_logic::{presence_to_clear, should_clear_presence, should_retry_attach, PlayerKind, ATTACH_RETRY_MS};

#[test]
fn clears_when_player_gone() {
    assert_eq!(
        presence_to_clear(Some(PlayerKind::NetEase), None),
        Some(PlayerKind::NetEase)
    );
}

#[test]
fn clears_previous_when_switching_apps() {
    assert_eq!(
        presence_to_clear(Some(PlayerKind::NetEase), Some(PlayerKind::Tencent)),
        Some(PlayerKind::NetEase)
    );
    assert_eq!(
        presence_to_clear(Some(PlayerKind::Tencent), Some(PlayerKind::NetEase)),
        Some(PlayerKind::Tencent)
    );
}

#[test]
fn no_clear_when_same_or_idle() {
    assert_eq!(
        presence_to_clear(Some(PlayerKind::NetEase), Some(PlayerKind::NetEase)),
        None
    );
    assert_eq!(presence_to_clear(None, Some(PlayerKind::Tencent)), None);
    assert_eq!(presence_to_clear(None, None), None);
}

#[test]
fn retry_backoff() {
    assert!(!should_retry_attach(1_000, 2_000));
    assert!(should_retry_attach(2_000, 2_000));
    assert!(should_retry_attach(2_500, 2_000));
}

#[test]
fn loop_logic_clears_when_player_gone() {
    assert!(should_clear_presence(true, false));
}

#[test]
fn no_clear_while_detected_or_idle() {
    assert!(!should_clear_presence(true, true));
    assert!(!should_clear_presence(false, false));
    assert!(!should_clear_presence(false, true));
}

#[test]
fn loop_logic_retry_backoff() {
    assert!(!should_retry_attach(1_000, 2_000));
    assert!(should_retry_attach(2_000, 2_000));
    assert!(should_retry_attach(2_500, 2_000));
}

#[test]
fn tencent_keeps_its_own_presence() {
    assert_eq!(
        presence_to_clear(Some(PlayerKind::Tencent), Some(PlayerKind::Tencent)),
        None
    );
    assert_eq!(presence_to_clear(Some(PlayerKind::Tencent), None), Some(PlayerKind::Tencent));
}

#[test]
fn retry_backoff_is_two_seconds() {
    assert_eq!(ATTACH_RETRY_MS, 2_000);
    assert!(!should_retry_attach(5_000 + ATTACH_RETRY_MS - 1, 5_000 + ATTACH_RETRY_MS));
}
