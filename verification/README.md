# rmux_server

The decision-making core of a terminal multiplexer server, verified with Verus.

- `input_keys`, `key_decode`, `key_code`, `pane_mode`: how a key press is spelled for
  the program in a pane, and how an extended key is read back. `key_laws` states what
  holds of both together.
- `pane_snapshot`, `pane_delta`, `pane_plain_output`, `line_delta`, `cursor`: what a
  pane shows, and the bytes that bring a terminal from one snapshot to the next.
  `pane_laws` states what holds of snapshots and deltas.
- `clients`, `client_sort`, `client_target`, `client_terminal`, `client_registry`,
  `windows_client`: the clients of the server, how they are listed, named and
  refreshed.
- `bytes`, `text`: byte strings and text.

`app/` holds what surrounds the core: locks, channels and the operating system.
Where a function of the core has a `requires`, its caller has to meet it.
