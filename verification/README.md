# achordion_lib

Logic of Achordion, a chord-crafting quantizing wavetable oscillator module
for Eurorack, written in Verus: every function of the library carries a
`requires`/`ensures` contract that Verus proves.

## Layout

- `src/` — the verified library:
  - `note` — the 128 notes of the MIDI range and their numbers.
  - `scales::diatonic` — modes and scale arithmetic (`lookup_degree`), with
    the laws of unison, octave and staying in the scale.
  - `chords` — chords built from scale degrees.
  - `quantizer::diatonic` — quantizing keyboard keys to the notes of a scale.
  - `instrument` — chord tables, the notes of the five chord voices, which
    voices play and which double an earlier one, and the mode knob.
  - `display` — the LEDs that show a chord.
  - `config` — the configuration switches held in one byte.
  - `probe` — the sequence that detects a patched cable.
  - `midi` — byte stream parser, held-note buffer with last-note priority,
    the controller that joins them, and MIDI number types.
  - `store` — parameters saved with a version, a token and a CRC-16/USB
    checksum (computed by the `crc` crate), and their byte layout.
  - `wavetable` — sample conversion to 12 bits.
- `tests/` — tests on concrete values, run against the compiled library.
- `app/` — the floating-point side, calling into the library: the sound
  engine (instrument, oscillators, band-limited wavetables, detune, loudness
  weighting, overdrive), voltage quantizers, frequencies, tapers and the
  parameters with their readings.

Not here: the build-time generation of the wavetable banks and of the
loudness weighting table, the Pure Data plugin and the firmware's entry
point. The weighting table is therefore handed to the instrument by its user.
