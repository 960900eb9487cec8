# weldwm

Verified decision logic of the Weld window manager, a Wayland compositor whose
shell is drawn by a game engine.

The library in `src/` decides and computes; it touches neither a socket nor a
GPU. Clients' surfaces, windows, input events, frames and buffers are plain
values there, and every function states in its contract what it returns or
changes. The modules fall into a few groups:

- surfaces and windows: `surface`, `scene`, `images`, `nodes`, `compositor`,
  `window`, `window_stack`, `presentation`, `layer`;
- the Wayland server: `surface_tree`, `toplevel`, `root_commit`, `shm`, `seat`,
  `output`;
- input: `raw_input`, `projection`, `routing`, `libinput`, `cursor`;
- frames: `runtime`, `shell`, `presenter`, `page_flip`, `direct_loop`, `nested`,
  `renderer`, `screenshot`, `pixels`, `drm`;
- client GPU buffers: `ledger`, `importer`;
- the session: `arguments`, `bitrate_budget`, `debug`, `overlay`;
- groundwork: `number`, `text`, `sort`, and within the library `table`.

Coordinates are kept as the bit patterns of binary floating-point numbers
(`number`): the library compares and checks them, and leaves arithmetic on them
to the application.

What Verus has to take on trust is the PNG encoder (`screenshot`).

`app/` is the program around the library: the command line, the session's
assembly from host, transports and media, files, and floating-point geometry.
`tests/` runs the library.
