# distributed_swmr_registers

Single-writer multi-reader registers emulated over message passing with the
ABD algorithm, together with the tools that start, run and evaluate a system of
such nodes.

## Layout

- `src/` is the verified library (Verus):
  - `abd_node.rs`: one node of the algorithm as a state machine. Each method
    takes one event (a client request or a received message) and returns what
    is to be sent; the contracts state the new state exactly.
  - `abd_system.rs`: a system of such nodes with one writer, over a network
    that may lose, repeat and reorder messages, whose steps are the node's
    operations as their contracts state them. Proved of every run: no node goes
    back in time; a read returns the value it wrote back, and a read that
    started after a write or a read completed returns a timestamp at least
    that operation's.
  - `quorum.rs`: the bookkeeping of one quorum access, the decision after each
    wait for a quorum, and the law that two majorities of the same nodes
    intersect.
  - `messages.rs`: the six messages, and how a serialized message is told
    apart by its prefix.
  - `entry.rs`, `register.rs`, `register_array.rs`, `data_types/`: timestamped
    values, maps from nodes to values and their product orders and merges.
  - `register_messages.rs`: a register sent whole between nodes, with the
    messages that carry one.
  - `run_result.rs`: what a node records of a run, and when such a record is
    sound.
  - `scenario.rs`, `hosts.rs`, `launch.rs`, `parse.rs`, `text.rs`,
    `render.rs`: the text formats (scenario keys, hosts files, commands,
    rendered registers) with their parsers and printers, proved against
    specifications of the text.
- `tests/` runs the library on concrete values.
- `app/` is the program around the library: command-line settings, the UDP
  transport, the threads that wait for quorums, the local and remote starters
  and the evaluator.
