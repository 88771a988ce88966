# music_rpc

Discord Rich Presence for NetEase Cloud Music and Tencent QQ Music on Windows.
The program finds the player's window, reads the playing track out of the
player's memory (an AOB signature scan of the module's `.text` section, then
fixed offsets), resolves metadata (local playing list, then NetEase's web API)
and publishes a "Listening" activity to Discord.

## Layout

- `src/` — the library, verified with Verus: signature parsing and scanning,
  the PE header walk, little-endian decoding, the MSVC `std::string` layout,
  best-effort region reads, the poll loops' decisions (clear, attach, retry
  with backoff), metadata lookup and caching, the Discord activity, URL
  splitting for HTTPS requests, the tray's message handling and the
  auto-start/first-run rules. Each public function states its result in its
  contract; the `law_*` proof functions state properties that span calls.
- `app/` — the Windows program around the library: Win32 and WinRT calls,
  process memory reads, WinHTTP, the registry, the Discord IPC client, JSON
  parsing, the tray window and the floating-point playback-clock search.
- `tests/` — tests of the library on concrete values.
