# reverb

A small audio synthesis engine. The library in `src/` holds the parts whose
behaviour is integer logic, each with a contract proved by Verus:

- `notes`: reading note names such as `A4`, `C#3`, `Db5` and their distance
  in semitones from A4 (`decimal` reads the octave number);
- `wav`: the byte layout of a mono 16-bit PCM WAV file, field by field;
- `track`: the length of a mix of tracks;
- `oscillator`: the waveform shapes.

`app/` is the command-line program: oscillators, the ADSR envelope, the
sequencer, the mixer's arithmetic and sample quantization, which all compute
in floating point, and file output.
