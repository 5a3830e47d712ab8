# pulp_os

The logic of an e-reader: bookmarks, settings, the file browser, the reader
with its paging, chapter cache and images, the manager of the apps, and the
decisions of the main loop.

`src/` is a library that Verus verifies. It does no input or output: where it
needs storage, an archive, the worker or the display, it asks, and goes on with
the answer.

- `kernel/` — bookmarks, settings, storage calls, the scheduler
- `apps/` — settings, files, titles, the manager
- `apps/reader/` — text layout, pages, images, the cache, and the steps of the
  background work; `laws.rs` states what these steps keep
- `board/`, `drivers/`, `ui.rs`, `fonts.rs`, `bytes.rs` — what they share

`app/` runs the library on a desktop: a directory stands for the card, letters
for the buttons. It reads EPUB files through `smol_epub`.

`tests/` runs the library on concrete values.
