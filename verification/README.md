# convenient_window

The window-management logic of the Convenient Window helper, written in Verus
and proved against its contracts:

- `edge_hide*`, `entries`: the edge-hide controller (windows parked behind a
  screen edge, strips, restore on hover or activation, relocation when the
  displays change, retries, shutdown restore) with its model, transition
  specifications and laws;
- `hotzone`, `window_drag`, `engine_rules`, `trigger`: hot-zone geometry and
  hints, modifier drags, hot-zone firing, and the main loop's decisions;
- `gesture_shape`: bounding boxes of drawn mouse paths;
- `adjustment_hud`: what the volume and brightness overlay shows, when it
  is redrawn, revealed and cleared;
- `config`, `config_normalize`, `gesture_config`, `config_laws`,
  `gesture_laws`, `config_compare`: the settings, gesture templates
  included, their normalization, with idempotence proved, and whether
  normalization changed received settings;
- `auth`, `ipc`, `desktop`, `supervision`, `text`, `geometry`: tokens, the
  WebSocket handshake check and message types, values and checks of the
  desktop shell, the helper's log and start/stop decisions, and shared text
  and geometry.

`app/` is the small program around the library: JSON settings with serde,
drawn gesture paths and recognition (floating point), the overlay's event
parsing, and file access.
