# bell

A lightweight notification daemon for Wayland, with its decisions written in Verus and
proved against their contracts.

## Layout

- `src/` is the verified library:
  - `configuration`, `table`, `layout`, `text`: the configuration model, its completion
    from the global settings, event responses, anchors and layers, and the message layout
    language (`<b>`, `<font_size=.. text>`, line breaks).
  - `notification`, `manager`: notifications, the notification manager (ids, replacement,
    expiry, closing, pointer triggers, the processing pass) and the laws that tie its
    operations together.
  - `wayland`: the model of the compositor state: surfaces, their draw protocol (configure,
    buffer release, draw requests), pointer focus and button triggers, shared-memory pool
    layout.
  - `daemon`: the daemon's command line, the stacking of surfaces on an output, and where the
    parts of a notification go on its surface.
  - `icon`: icon theme index files and the icon lookup in a theme.
  - `png`, `images`, `render`: decoding PNG icons with the `png` crate, reading their pixels,
    the test images, the pixel canvas and the border layout.
  - `tester`: the decisions of the notification tester.
- `app/` is the program around it: the session-bus server, the Wayland connection and shared
  memory, signal handling, the TOML configuration file, file-system lookups, and the
  floating-point drawing and text shaping.
- `tests/` exercises the library on concrete values.
