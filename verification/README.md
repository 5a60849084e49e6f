# raven

A visual-novel engine whose decisions are verified with Verus.

- `src/` is the verified library: the dialogue game (input, jumps, labels,
  branch choices, what the dialogue boxes and sprites show, variable
  substitution in the dialogue file), the Raven story engine (scripts,
  scenes, running a story frame by frame, image preloading), the menus and
  toolbar, the responsive-style planning, the typewriter texts, and the
  string and map operations they rest on. Every public function states what
  it returns in its `ensures`; laws that relate several calls are public
  proof functions named `law_*`.
- `app/` is the bevy program around the library: windows, input, asset
  loading, audio, rendering, reading the YAML files, and the floating-point
  work (fades, dissolves, scaling, size comparisons of media queries).
- `tests/` runs the library on concrete inputs.
