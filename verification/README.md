# grid_sequencer

A grid sequencer: steps and triggers placed on a grid make rhythms, and
tracks play wave samples in a terminal program or a browser.

- `src/` is the library, verified with Verus: the grid and its walk to the
  nearest empty cell, the application state and its messages, the key
  bindings, steps (charge and discharge), samples, tracks and streams,
  the wave file reader, the terminal state, commands and text views, the
  audio engine's setup and how entities are wired into it, and the
  simulator's positions, rectangles, keyboard, bitmaps and images.
  Sample points are a type parameter; the programs use `f32`.
- `app/` is the program around it: the sound device, the terminal screen,
  the browser front ends, the audio engine's sources, and everything that
  computes with floating-point samples.
- `tests/` runs the library on concrete cases.
