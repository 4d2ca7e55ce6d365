# wayland-proxy

A transparent Wayland proxy that sits between clients and the compositor and forwards
everything as it stands, except for `xdg_toplevel.set_app_id`. Each `app_id` gets the name of
the proxy's socket in front (`my-socket:firefox`), and each new toplevel gets one at once
(`my-socket:unknown`), so that a window tells which socket its client used. An `app_id` that
has no room behind the prefix in the largest message is cut at its end.

```bash
wayland-proxy my-socket
WAYLAND_DISPLAY=my-socket firefox
```

## Layout

- `src/` is the library, verified with [Verus](https://github.com/verus-lang/verus): the wire
  format (`wire`, `byte_order`, `text`), the tracked objects (`tracker`), the connection as a
  state machine without input or output (`connection`), and socket paths (`socket_path`). The
  modules that end in `_laws` hold what is proved of them beyond their own contracts.
- `app/` is the program around it: sockets, the event loop, logging and the command line.
- `tests/` runs the library.

## What is trusted

- `u32::from_ne_bytes`, for the byte order of the machine: that it is one of the two orders.
- `String::from_utf8_lossy`: that valid UTF-8 is decoded, and that anything else comes out with
  a U+FFFD in it.
