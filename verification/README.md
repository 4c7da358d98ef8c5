# soundboard

The verified core of a desktop soundboard that plays sounds to a local
monitor output and to a virtual output device, and routes a microphone to the
virtual output.

- `src/` is the verified library:
  - `ogg_opus.rs`: recognising Ogg Opus files, checking the Opus
    identification header, reading audio packets (through the `ogg` crate),
    and the sample bookkeeping of decoding (frame sizes, pre-skip).
  - `mic.rs`: the microphone controls and the bounded sample buffer that keeps
    capture latency at most 200 ms.
  - `engine.rs`: the audio engine: which outputs are selected, where the
    microphone is routed, which playback queues are held, the master volume.
    Opening devices and creating queues are passed in as functions, so the
    engine's decisions are proved whatever those return.
  - `config.rs`: the persisted settings and the sound list.
- `app/` is the Tauri program around it: device I/O with `cpal` and `rodio`,
  Opus decoding to `f32` samples with `opus`, JSON settings with `serde_json`.
- `tests/` runs the library on concrete values.

Volumes are held in the library as the bit patterns of `f32` values.
