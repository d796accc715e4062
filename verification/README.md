# lifelog-compression

Turns one source video into one sparse visual bundle: JPEG frames on a padded
canvas, a JSON-lines frame manifest and a `bundle.json` of bundle metadata.

- `src/` is the verified library (Verus): the scale-to-fit geometry of the
  canvas (`layout`), number formatting (`text`), the bundle and manifest
  records (`model`, `bundle`), JSON-lines framing (`jsonl`), bundle
  identifiers from the clock (`clock`), RFC 3339 timestamps (`calendar`),
  SHA-256 content hashes through `sha2` (`hashing`), path components and
  path equality (`paths`), the native extractor's paths and
  command lines (`native`) and the format's design summary (`summary`).
- `app/` is the command-line program: file-system work, the native extractor
  process, and the serde forms of the records.
- `tests/` exercises the library.
