//! Pure poll-loop decisions: when to clear a published presence and when a
//! failed reader attach may be retried.

use vstd::prelude::*;

verus! {

/// Which music client currently owns the Discord presence.
#[derive(Debug, Clone, Copy, PartialEq, Eq, Structural)]
pub enum PlayerKind {
    NetEase,
    Tencent,
}

/// Backoff after a failed attach attempt (milliseconds).
pub const ATTACH_RETRY_MS: u128 = 2_000;

/// When the player window disappears, clear any previously published presence.
pub fn should_clear_presence(had_presence: bool, player_detected: bool) -> (r: bool)
    ensures
        r == (had_presence && !player_detected),
{
    had_presence && !player_detected
}

/// Whether a failed reader attach should be retried now.
pub fn should_retry_attach(now_ms: u128, next_retry_ms: u128) -> (r: bool)
    ensures
        r == (now_ms >= next_retry_ms),
{
    now_ms >= next_retry_ms
}

/// The presence that must be cleared when the detected player changes.
pub open spec fn spec_presence_to_clear(
    last_rpc: Option<PlayerKind>,
    detected: Option<PlayerKind>,
) -> Option<PlayerKind> {
    match last_rpc {
        Some(prev) => if detected == Some(prev) {
            None
        } else {
            Some(prev)
        },
        None => None,
    }
}

/// When the detected player changes, which previously-published presence (if
/// any) must be cleared before continuing.
///
/// - Player window gone: clear the last active kind.
/// - Switched NetEase / Tencent: clear the previous kind (two Discord app IDs).
/// - Same kind, or nothing published yet: clear nothing.
pub fn presence_to_clear(last_rpc: Option<PlayerKind>, detected: Option<PlayerKind>) -> (r:
    Option<PlayerKind>)
    ensures
        r == spec_presence_to_clear(last_rpc, detected),
{
    match (last_rpc, detected) {
        (Some(prev), None) => Some(prev),
        (Some(prev), Some(cur)) if prev != cur => Some(prev),
        _ => None,
    }
}

/// A presence is never cleared unless one was published, and the one cleared
/// is always the one published last.
pub proof fn law_only_published_presence_is_cleared(
    last_rpc: Option<PlayerKind>,
    detected: Option<PlayerKind>,
)
    ensures
        spec_presence_to_clear(last_rpc, detected) is Some ==> last_rpc is Some
            && spec_presence_to_clear(last_rpc, detected) == last_rpc,
        last_rpc is None ==> spec_presence_to_clear(last_rpc, detected) is None,
{
}

/// Staying on the same player never clears its presence; losing or switching
/// the player always clears the one published.
pub proof fn law_clear_exactly_on_loss_or_switch(prev: PlayerKind, detected: Option<PlayerKind>)
    ensures
        (spec_presence_to_clear(Some(prev), detected) is None) <==> detected == Some(prev),
{
}

} // verus!
