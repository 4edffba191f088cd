# dysonphere

A sample-playback synthesizer core written in Verus.

- `src/` is the verified library: SF2 file contents and zone resolution
  (`sf2file`, `sf2`), the SFZ tokenizer and header inheritance (`sfz`,
  `text`), WAV layout (`wav`), the DAHDSR envelope stage machine
  (`envelope`), voice loop and release control (`voice`), note scheduling
  and voice stealing (`synth`), and the soundfont types and lookups
  (`types`, `soundfont`). Every public function carries a contract that
  Verus proves; the laws that span several calls are public proof
  functions named `law_*`. The proofs rest on a few trusted items, each
  marked `#[verifier::external_body]` or declaring an outside type: calls
  into std (`str::to_lowercase`, `Path::extension`, collecting chars into a
  `String`) and into the `soundfont` crate (`SoundFont2::load`, whose
  inputs `check_sf2_layout` first keeps to those it reads without
  panicking, and `SoundFont2::sort_presets`).
- `app/` is ordinary Rust around it: file reading, floating-point
  amplitude, resampling, PCM decoding and the render loop.
- `tests/` exercises the library on concrete values.
