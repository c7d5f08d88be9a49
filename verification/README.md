# rusty_halloween

Verified core logic of a Halloween light show: the show server that hands
each device its slice of the show, and the firmware of the light nodes that
play it back over an ESP-MESH or ESP-NOW network.

- `src/` is the library, written in Verus. Each module states its behaviour
  in `requires`/`ensures` contracts, and the laws that relate several
  operations are public proof functions.
  - Show server: `show`, `server`.
  - ESP-MESH node: `node`, `instructions`, `ota`, `mesh_state`, `events`,
    `scan`, `tasks`, `version`, `utils`, `color`.
  - Light device client: `show_client`, `led_executor`, `ntp`, `wifi`.
  - ESP-NOW node: `mesh_protocol`, `s2_espnow`, `s2_instructions`,
    `s2_time_sync`, `s2_routing`, `s2_ota`, `s2_led`, `s2_node`.
  - Laser projector: `projector`.
  - Shared pieces: `text`, `checksum` (CRC-32 through the `crc` crate),
    `bounded` (the fixed-capacity vectors and index map of the `heapless`
    crate).
- `tests/` runs the library on concrete values.
- `app/` is the show server's HTTP front end (axum, reqwest), and the
  postcard encodings of the ESP-NOW messages (`app/mesh_wire.rs`) and the
  JSON texts of the ESP-MESH messages (`app/mesh_json.rs`).
