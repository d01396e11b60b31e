# nosebleed

A frontend for libretro cores that streams to browsers, with its rules proved in
Verus.

- `src/` is the library: wire formats, input, the arcade's queues and rounds,
  tokens, port reservations, sessions, the run of a core, media selection and
  what is fed to the encoders, an X11 handshake, and the answers of the server.
  Functions have contracts, but for the few that only read a clock, and what
  holds across functions stands as a public proof function named `law_...`.
- `app/` is the program round it: sockets, files, threads, GStreamer, EGL and the
  C interface of cores.
- `tests/` runs the library on concrete values.

Functions that read a clock come twice: one that takes the time as an argument,
named `..._at`, and one that reads it.
