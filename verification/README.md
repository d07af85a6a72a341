# dlcore

The verified core of a ranged HTTP downloader.

- `src/blocks.rs`: a download block (range, progress, lifecycle state), the
  guard that marks a block as receiving, and the form in which a block is kept.
- `src/download_core.rs`: cutting stream chunks by prefix, and the per-chunk
  decisions of the writing loop and of the loop that seeks a write position.
- `src/download.rs`: the `Range` header value of a request and the
  classification of the first response.
- `src/downloader.rs`: blocks split into equal parts, the task lifecycle of a
  block with the handle of its task, and the check that the file on the server
  did not change.
- `app/`: the asynchronous requests, streams and storage, driven by the
  decisions above.
