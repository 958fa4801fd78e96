# pond

The verified core of Pond, an installation in which visitors tap their phones
to drop spatialised water droplet sounds into a room.

- `src/` is the library, checked by Verus: the voice lifecycle and the
  allocation of a fixed pool of voices (`pool`, `voice`, `dsp::droplet`),
  the interleaved sample position that decides when a buffer is rendered
  (`signal`), the wiring plan of the DSP graph (`graph`, `dsp::graph`), the
  musical scale of the droplets, and the framing of `droplet:x,y` trigger
  names (`trigger`).
- `app/` is the program around it: the WebSocket server, the audio backend,
  the DSP graph itself and the floating-point sound parameters.
- `tests/` runs the library on concrete values.
