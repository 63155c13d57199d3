# halley-wl

The Wayland side of the Halley compositor, as a verified library: the
decisions its main loops, renderer and process setup take, each with a
contract proved by Verus.

- `src/run/` — one step of the nested and of the TTY main loop
  (`run_winit`, `run_tty`): from loop state and event to the next state and
  the actions to take; backend selection, runtime directory,
  session bus and host display rules; the X11 bridge supervisor; the IPC
  request handling; DRM scan-out selection; the output section kept across
  configuration reloads.
- `src/render/` — application icon lookup (desktop entries, icon themes,
  scoring), icon rasters, cursor themes and Xcursor images, stack cycle
  plans and draw orders, per-monitor overlay state (toasts, transitions,
  closing animations, offscreen caches), bearings chips, layer-shell
  placement, blur texture sizes, outline and border clipping, text sizing
  rules and font family resolution.
- `src/paths.rs`, `src/strings.rs` — the path and text operations the rules
  above are stated over.
- `app/` — what touches the machine: signals, environment variables, the
  file system and child processes. For process setup, the X11 bridge,
  application icons and cursor themes it reads what the library's
  decisions need and carries out what they return.

The compositor backends that would feed events to the loop steps and carry
out their actions (Wayland protocol handling, DRM scan-out, input, GPU
drawing, text shaping) are not part of this crate. They are built on
`smithay`, `calloop`, `winit`, `wgpu` and `cosmic-text`, which bind system
libraries (libwayland, libseat, libinput, GBM, EGL), and on the
compositor's own core, configuration and IPC crates, which live outside
this repository. The library keeps to what can be stated and proved
without them: `run_winit` and `run_tty` are the decision steps of those
loops, and nothing here drives them; the geometry the backends compute in
floating point (window placement, the alphas and positions of stack
animations) stays with them.
- `tests/` — scenarios on concrete values.
