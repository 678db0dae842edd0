# broadlink_remote

The verified core of two clients of the Broadlink REST API (a tray service
with a media player, and a terminal UI), written in Verus.

- `src/` — the library, every function verified:
  - `text`, `sort`, `str_map`: string order and helpers, stable sorting by
    string keys, string-keyed maps and sets;
  - `json`, `api_client`: the API's records, its URLs, and the command tree
    built from a device's JSON;
  - `refresh`: the caches assembled from what a refresh fetched;
  - `service`: configuration and media keys, the shared state, the tray menu;
  - `tui`: configuration, the navigation state machine, the displayed text.
- `tests/` — tests of the library.
- `app/` — the programs: HTTP, D-Bus, terminal and file I/O around the
  library (`broadlink-remote` for the service, `broadlink-remote tui` for the
  terminal UI).
