# smithy_changelog

Verified rendering of smithy-rs changelogs and of the EBS service responses.

- `src/text.rs`: character sequences: numerals, ASCII case, `str::lines`, `trim`,
  joining, removing a marker, and the string order with a sort that drops duplicates.
- `src/entry.rs`: changelog entries.
- `src/render.rs`: markdown release notes (entries, SDK model updates, contributors).
- `src/release.rs`: release titles, tags, manifests, `gradle.properties` versions and
  the updated changelog text.
- `src/json.rs`, `src/operation_ser.rs`: JSON documents and HTTP status codes of the
  EBS operations' outputs and errors.
- `app/`: the `render` command line and file handling, and the conversion of responses
  to `http` responses.
