# Tawny's library

The rules and decisions behind Tawny, a local-first YouTube client, written
in Verus and proved against their contracts.

- `src/` is the verified library: videos and their dates, channels and how
  their metadata merges, playlists and how a run walks them, SponsorBlock
  settings and segments, accounts and sign-in, the backend address, the
  search page's local answers, the demo library, playback sources and
  failures, and what the screens say.
- `tests/` runs the library on concrete values.
- `app/` is the launcher: it reads and writes the stored backend address,
  and holds the pieces that work on files, the clock, floating point or
  serde.

Outside crates are reached from `src/` only through a few trusted wrappers,
each with a doc comment saying what it claims of the crate: `time` for
parsing dates, `web-time` for the clock, `argon2` for password hashes, and
std's string collection and Unicode lowercasing.
