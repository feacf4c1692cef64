# payload_dumper

Extracts partition images from Android OTA payloads (`payload.bin`, a ROM
ZIP holding one, or either behind an HTTP URL). The library in `src/` is
written in Verus: each function states in `requires`/`ensures` what it does,
and Verus proves it.

Layout:

- `src/` — the verified library
  - `header`, `structs`, `metadata`, `listing`, `extractor`: the payload
    header, the manifest as plain values, the metadata record, the partition
    table and summaries
  - `zip`, `zip_decoder`, `remote_zip`, `ota_metadata`, `fetch_cache`,
    `zip_io`, `seek`, `bytes`: finding the payload inside a ZIP archive, from
    memory or from ranges fetched over the network
  - `payload_dumper`, `streaming`, `diff`, `codecs`: deciding and applying
    install operations (decompression and bsdiff patches go through the
    `liblzma`, `zstd`, `bzip2`, `brotli`, `lz4_flex`, `async-compression` and
    `bsdiff` crates)
  - `puf1`: the PUF1 container of PUFFDIFF patches, checked before the
    program applies one with the `puffdiff` crate
  - `scheduling`: parallel extraction, work shares and retries of partitions
  - `prefetch`, `http`: which byte ranges to download and how to ask for them
  - `verification`, `utils`, `text`, `args`: hash checks, formatting, options
- `tests/` — tests on concrete values
- `app/` — the command-line program: argument parsing, files, memory maps,
  HTTP, worker threads, JSON output; the decisions it acts on (what to
  read, how to decode and where to write, when to retry) come from the
  library
