# image_client

The decisions of a desktop image, video and comic production client, as a verified library.

- `src/` holds the library. Every function states in its contract what it returns; Verus proves
  that it does. What only an outside crate can compute (JSON text, addresses, base64, digests,
  pictures, identifiers) stands behind small trusted wrappers.
- `app/` is the ordinary code around it: files, SQLite, HTTP, the clock and the serde copies of
  the library's types. It reads what a decision needs and carries out what comes back.
- `tests/` runs the library with the real outside crates.

| Module | What it decides |
| --- | --- |
| `config`, `commands` | settings and how they are stored, documents, media files, case images, video segments, model lists |
| `agent` | tool-calling conversations with the text service and their budget |
| `gateway`, `image_exchange`, `reference_board` | requests to the image service and the exchange with it, reference images and their board |
| `image_files` | variants of image files |
| `db` | which statements may run, how migrations follow each other, which backups stay |
| `external_asset_import` | files that enter the library of assets |
| `comic_visual`, `comic_page_layout`, `comic_page_compiler` | frozen manifests and compiled page requests |
| `comic_visual_render` | page runs from start to candidate |
| `comic_visual_batch`, `comic_visual_batch_driver`, `comic_visual_batch_replay` | sequential batches of pages, and what repeated steps on them come to |
| `comic_visual_asset`, `comic_visual_export` | candidates and their exports |
| `json`, `text`, `sequence`, `unit`, `paths`, `digest`, `outside` | shared ground |
