//! First-run detection and the auto-start registration's values. The file
//! system and the registry are the caller's.

use vstd::prelude::*;

verus! {

/// Directory (under `%LOCALAPPDATA%`) that holds the configuration file.
pub const CONFIG_DIR: &'static str = "Vanessa";

/// Name of the configuration file.
pub const CONFIG_FILE: &'static str = "config.json";

/// What is written to mark the application as initialised.
pub const INITIAL_CONFIG: &'static str = "{}";

/// `true` when this is the first launch: the config file does not exist yet.
pub fn is_first_run(config_exists: bool) -> (r: bool)
    ensures
        r == !config_exists,
{
    !config_exists
}

/// The `Run` key under `HKEY_CURRENT_USER`.
pub const RUN_SUBKEY: &'static str = "Software\\Microsoft\\Windows\\CurrentVersion\\Run";

/// The value under the `Run` key.
pub const RUN_VALUE_NAME: &'static str = "NCM-DiscordRpc";

/// Auto-start is on when the `Run` value exists and names this executable
/// (`registered` is `None` when the key or the value cannot be read, `exe`
/// when the executable's path cannot be resolved).
pub fn autostart_registered(registered: Option<&str>, exe: Option<&str>) -> (r: bool)
    ensures
        r == (registered is Some && exe is Some && registered.unwrap()@ == exe.unwrap()@),
{
    match (registered, exe) {
        (Some(v), Some(e)) => crate::text::str_eq(e, v),
        _ => false,
    }
}

} // verus!
