# apple-translate-rs-sync

Blocking translation between language pairs with Apple's on-device Translation
framework, with the library's decisions proved in Verus.

- `src/` is the library. It performs no input or output. Each operation is given
  as the call or the step to perform next, and takes the outcome as a value; what
  is written to a worker process, what is read back, when a worker is given up,
  and what every request's result is, are stated in contracts and laws.
- `app/` performs the steps: the framework's calls, the worker processes, the
  files and the environment, and the three programs.
- `tests/` runs the library with stand-ins for the framework and the worker.

A batch goes first through a worker process for its language pair, which speaks
in frames: the number of texts on a line, and each text in UTF-8 behind a line
with its length in bytes. The answers come back in the same frames. Where there
is no worker for a batch, or where it fails or returns no translation at all,
the framework translates the batch instead. A worker that fails, or that returns no
translation though a text is not empty, is ended, and none is started for its
pair again; one that was merely not to be had is looked for again with the next
batch.

Each worker runs one engine by default. `set_worker_num_engines`, or else the
variable `APPLE_TRANSLATE_RS_SYNC_WORKER_NUM_ENGINES`, asks for more; values are
clamped to 1 to 32.

A build embeds the worker's program in `app/` by setting the flag
`embedded_worker` and the variables that `app/lib.rs` names; it is extracted to a
temporary directory when it is first needed.
