# foxiefox

A small game engine on SDL3 and wgpu, with its core logic verified by Verus.

- `src/` is the verified library: identifiers and registries, the logger's
  line layout and forwarding rules, the decisions taken on SIGINT/SIGTERM,
  the main loop's input and frame-pacing decisions, typed growable GPU
  buffers, the checks of a draw's bindings, the frames rendered ahead, the
  answers to a surface's state, the stack of screens and the orders in which
  they hear events and are drawn, and the order in which the UI visits its
  component tree. Calls into wgpu, image, bytemuck and itoa stand behind
  small trusted wrappers; each one's doc comment says what its contract
  claims of the crate and what it leaves out. GPU buffers and textures carry a model of
  the bytes they hold, which queued writes and submitted copies change, and
  the device they were made on: a loader writes only into buffers and
  textures of its own device, whose queue it holds.
- `tests/` runs the library on concrete values.
- `app/` is the game itself: start-up, the async main loop, SDL events,
  threads and signals, GPU pipelines and the UI's floating-point layout. It
  hands the library plain values and acts on its answers.
