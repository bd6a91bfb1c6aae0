# neurokaraoke

The logic of the NeuroKaraoke desktop player, verified with Verus.

- `src/` is the library. Each module states its behaviour in contracts over
  mathematical models and proves it:
  - `playback` — playback timing (pause, resume, seek, end of song);
  - `queue` — the play queue: shuffling, next/previous, what follows a song;
  - `cache` — the asset cache index: file names, touching, the sweep that expires
    and evicts entries;
  - `api` — API records, endpoints, the lazily filled song table;
  - `auth` — token payload decoding, the Discord sign-in callback;
  - `media` — audio and image URLs;
  - `profile` — the profile page's state;
  - `ui` — labels, page and theme names, the title search;
  - `text`, `ids` — text and identifier helpers.
- `tests/` runs the library on concrete values.
- `app/` is the program around it: the window, audio output, HTTP, files and
  settings.
