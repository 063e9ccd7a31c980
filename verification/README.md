# labgrid-tui

A k9s-style terminal UI for monitoring labgrid infrastructure: places,
resources and exporters from a labgrid coordinator, in real time.

The state, the key bindings, the coordinator's messages and every text on
screen are computed by a library proved with Verus; the program around it
does the terminal, network and file work.

- `src/` — the verified library
  - `app.rs`: the application state, its abstract view and its updates
  - `event.rs`: what each key and each main-loop event does
  - `config.rs`: command line, configuration file, coordinator URL
  - `grpc/client.rs`: what the client sends, and what each received
    message means for the state; the WebSocket bridge's decisions
  - `model/`: places, resources, exporter summaries
  - `ui/`: the header, tables, detail panel, bars and help, as text
  - `sorted_map.rs`: sorted key/value vectors standing for ordered maps
  - `text.rs`: string order, trimming, joining, decimal numbers
  - `laws.rs`: properties of the library as a whole
- `tests/` — tests of the library
- `app/` — the program: clap and serde front ends, crossterm input,
  ratatui drawing, the tonic transport

The program reads the coordinator's protobuf definitions
(`labgrid-coordinator.proto`) through `tonic::include_proto!`, which needs
them compiled by a build step.
