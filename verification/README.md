# octotablet

A cross-platform tablet, pad and stylus library: it reports the connected hardware and turns
the windowing server's stylus protocol into a uniform stream of events.

- `src/` is the core, verified with Verus: the hardware descriptions (`axis`, `tablet`, `tool`,
  `pad`), the events and their resolution against the reported devices (`events`), and one
  state machine per backend under `platform/` (Wayland's `tablet_unstable_v2`, X11's XInput 2,
  Windows Ink's `RealTimeStylus`). Axis values are generic there; the library never does
  floating-point arithmetic.
- `app/` holds the connections themselves (Wayland dispatch, X11 requests, the Ink COM
  plugin), the floating-point axis values, and the public `Manager` that ties them to the core.
- `tests/` exercises the core on concrete values.
