# gcsdrop

Publishes an HTML file or directory to a Google Cloud Storage bucket you own
and prints a V4 signed URL for it, after checking that the URL really works.

The decisions the tool makes are a library verified with Verus (`src/`); the
program around it (`app/main.rs`) only reads the environment and the
filesystem, talks to Google Cloud, and prints.

- `src/text.rs` — string operations (trim, search, line splitting, decimal
  formatting) proved against specifications over character sequences.
- `src/config.rs` — the bucket and prefix settings and their normalisation.
- `src/cli.rs` — the command line and the signed URL lifetime (1 second to
  7 days, 1 hour by default).
- `src/adc.rs` — which Application Default Credentials are in play and
  whether they can sign.
- `src/manifest.rs` — the files to upload, their content types, the limits,
  the landing page and the run's name.
- `src/upload.rs` — object names inside the bucket; the signed object is
  always one of the uploaded ones.
- `src/verify.rs` — the outcome of fetching the link and the explanation of
  a failure.
- `src/run.rs` — one run as a state machine: the program performs each
  operation it decides on and reports back. Proved: nothing is uploaded
  unless the credentials can sign and the link was signed first; the signed
  object is among the uploaded ones; a link is printed only after fetching it
  with no credentials succeeded.
- `src/errors.rs` — error chains, their de-duplicated rendering, and the
  advice printed for recognised failures.

The tests under `tests/` exercise the library with the real outside crates
linked.
