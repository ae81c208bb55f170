# kourain_media

A media helper: it lists the audio files of a folder, converts them with
`ffmpeg` (several at once, with progress), and fetches audio from YouTube.

- `src/` is the library, verified with Verus: number and size formatting,
  `ffmpeg`/`ffprobe` command lines and output parsing, the registry of
  running conversions and their progress, the progress display updates,
  the YouTube address and page helpers, the settings with their defaults,
  and the component attribute helpers.
- `app/` is the command-line program around it: processes, threads, files,
  network and the `f64` size estimates.
- `tests/` runs the library on concrete values.

## Why the registry keeps its maps in `Assoc`

The running conversions and their progress are keyed by text (the
progress key of a file). vstd specifies `HashMap` operations only for key
types for which `obeys_key_model` holds, and it states that for integers,
`bool` and boxes of them, not for `String`; stating it for `String` would
take an `assume`. With a `String` key nothing about `insert`, `get` or
`remove` could be proved. `Assoc<V>` (`src/assoc.rs`) is a list of
`(String, V)` pairs whose keys are distinct (its type invariant), viewed
as a `Map<Seq<char>, V>`; its operations are proved against that view.
The registry's maps are small (one entry per file being converted), so a
linear search costs nothing that matters.
