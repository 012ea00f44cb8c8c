# mantle_media

A verified media-source library: playlist and HLS parsing, MPEG-TS audio extraction, HTTP range
policy, remote-API request building and response parsing for several streaming services, and
the decisions of media probing and track loading. Every function under `src/` carries a Verus
contract; the laws of the library are public proof functions beside the code they speak of.

- `src/` — the verified library (one module per concern: `hls`, `playlist`, `mpeg_ts`,
  `http_policy`, `remote_http`, `source`, the service modules, and text/URI helpers).
- `tests/` — ordinary Rust tests run against the compiled library.
- `app/` — thin unverified glue: HTTP client, JSON reading, range input and cancellation.
