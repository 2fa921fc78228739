# pipeflow

The core of Pipeflow, a PipeWire graph and control application, written in
Verus. The functions in `src/` carry contracts that Verus proves, except a few
small wrappers around outside code (the system clock, random ids, glob
matching, std string and error text), whose contracts are trusted.

## Layout

- `src/` — the verified library.
  - `graph`, `graph_state`, `ids`, `properties`: nodes, ports and links, and the
    graph that holds them together consistently.
  - `events`, `graph_events`, `headless`: what each PipeWire event does to the
    graph, the connection state and the user's state.
  - `ui_state`, `ui_commands`, `groups`, `filters`, `workspace`, `state`:
    selection, marks, custom names, groups and filters, kept by stable node
    identifiers so that they survive restarts.
  - `rules`, `reconcile`, `capture`: connection rules, which links they ask for
    and which they remove, and rules made from a node's current links.
  - `snapshots`, `restore`: saved routing set-ups and how to bring one back.
  - `commands`, `safety`, `history`, `undo`, `feedback`: commands, the safety
    modes that allow or block them, undo and redo, and persistent warnings.
  - `proto`, `adapter`, `server`: the remote-control messages, their
    conversion in both directions, and the server's decisions.
  - `explain`, `node_text`, `text`, `meters`, `config`, `errors`, `cli`:
    descriptions of nodes, text helpers, configuration paths and errors.
- `tests/` — tests of the library.
- `app/` — the program around the library: command line, configuration,
  layout and snapshot files, and the application state that applies events and
  sends commands. The graphical interface, the PipeWire connection and the
  network transport are not part of this build.
