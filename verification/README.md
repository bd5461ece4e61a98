# audio_visualizer

The verified core of an audio visualizer that drives an LED strip.

`src/` is the library, checked by Verus:

- `signal_processing` — `Scope` and `Sample`, the transform-options trait;
  `signal_processing::audiovisual` — the visible wavelength range and the
  split of a spectrum into three colour bands.
- `data_stream::audio_stream` — the time ring (a mirrored buffer whose
  window always holds the latest `FFT_SIZE` input values in order),
  `chunk_buffer` (one chunk written on its own into a fresh buffer, as the
  program's capture callback does), the
  stereo frame split, and the ring of display buffers that analysed samples
  are packaged into and rendered out of, with its model and laws.
- `pixel` — pixels, the strip built from a scope and colours, and the
  1024-byte packet the strip is sent as.
- `device_modules::config` — device settings and their defaults.
- `visualizer` — frame pacing of the render loop.

`app/` is the program around it: the portaudio input stream, the FFT
(rustfft), the floating-point analysis and colour mapping, and serde
serialisation of pixels. `tests/` exercises the library on concrete values.
