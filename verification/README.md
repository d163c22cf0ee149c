# community_provider

Two AstroBox community resource providers and a work-bench, with their logic
verified in Verus:

- **GiveMeFive** (mibandtool): settings and login sessions, request headers and
  signatures, the watch-face catalogue (listings, searches, the merged index of
  all supported models, sorting and duplicate removal), manifests and download
  payloads, and the user's uploads.
- **QingWear**: the records of the encrypted gateway's replies, category and
  device filters, the free-app scans behind the index and the total, manifests,
  variant selection for downloads, and the gateway envelope itself.
- **Work-bench**: the UI state machine (events to commands, each command's
  effect on the state) and the element tree it renders.

Layout:

- `src/` — the verified library. Outside crates (MD5, Base64, AES-CBC,
  ChaCha20, RSA) are reached through a few trusted wrappers whose contracts name
  their results.
- `app/` — the plugin shell: host calls, HTTP over `waki`, the session file,
  caches, and JSON text through `serde_json`.
- `tests/` — tests of the library on concrete values.
