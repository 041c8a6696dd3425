# pageseer (verified core)

`pageseer` rasterizes PDF, Office and HWP/HWPX documents into per-page PNG or
JPEG images. This crate holds the logic of a batch run as a Verus-verified
library; the command line and everything that touches files, the network or
the rendering libraries is ordinary Rust under `app/`.

Layout of `src/`:

- `text.rs` – decimal and zero-padded rendering, ASCII case folding.
- `paths.rs` – paths as strings: final component, stem, extension, join.
- `options.rs`, `format.rs` – options, output format, input format detection.
- `output.rs` – page image file names and their padding width.
- `report.rs` – result types and the batch summary.
- `errors_json.rs` – the content of `errors.json`.
- `batch.rs` – progress sink, labels, stems, per-document output directories,
  progress lines.
- `pipeline.rs` – the decisions of a run: what each input needs, how a page
  result is recorded, how a batch is closed, the exit status.
- `gotenberg.rs` – the conversion service endpoint.
- `error.rs` – the error type and its message.
- `laws.rs` – properties that relate several of the above.

`app/` runs the loop: it converts (Gotenberg over HTTP, HWP through rhwp),
renders with PDFium, scales and writes images, writes `errors.json` with
serde, prints progress, and parses the command line with clap.
