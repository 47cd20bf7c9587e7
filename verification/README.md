# Amixima

Amixima edits Soundcourses: ordered chains of audio effects (gain, EQ,
delay, reverb, compressor) with their metadata, stored as INI or JSON-LD,
and applies them to the audio files of a directory.

## Layout

- `src/` is the verified library, written for Verus:
  - `ontology`: the Soundcourse model and the effect defaults;
  - `validation`, `catalog`: the Soundcourse v1 parameter rules and the
    table of parameters;
  - `parser`, `ini_doc`: the INI reader and writer (strict, lenient and
    legacy readings over a parsed document held as plain values) and the
    laws relating writing and reading;
  - `editor`: what each key does in the terminal editor, as a step from
    state and key to state and command;
  - `listing`, `files`, `batch`: the file list order, what Enter opens,
    audio and WAV file names, the WAV files a batch run takes and the order
    and end of the run, output file names, and the waveform bars;
  - `ini_config`, `text`, `floatbits`, `error`, `symbols`: the INI store,
    text helpers, `f32` values carried as bits, errors and list markers.
- `app/` is the program around it: command line, terminal drawing, file
  and audio I/O, JSON-LD through serde, and the floating-point effect
  processing.
- `tests/` runs the library on concrete values.
