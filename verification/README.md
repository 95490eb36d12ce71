# music_backend

The backend of a small music service: albums, their ordered tracks, and the
upload and streaming of each track's audio. The rules of the service are a
library that Verus verifies; a thin program puts them on the network.

- `src/` is the library.
  - `store`: albums and tracks, and the requests that create and list them.
  - `upload`, `download`: how audio comes in and goes out, one step at a time.
  - `scan`: what the virus scanner's answer means for an upload.
  - `files`: the names and directories under which uploads are kept. Paths are
    read and joined as on Unix.
  - `error`, `model`, `config`, `ident`: answers, records, settings, identifiers.
  - `text`, `table`: blank text, the order of titles, decimal numbers, and a map
    that keeps the order of its keys.
  - `laws`, `transfer`: what holds of the service as a whole. `laws` speaks of
    albums, tracks and refusals, `transfer` of uploads and downloads.
- `app/` is the HTTP server: routes, JSON, files and the scanner process.
- `tests/` runs the library.

An upload is accepted only after `clamscan` was found and cleared it, and only
within `MAX_AUDIO_BYTES`. Without a scanner it is refused with status 503.
