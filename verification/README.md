# auria_node

Runtime core of an AURIA node, verified with Verus.

- `src/` is the verified library: the node's counters and health (`state`),
  its configuration and builder (`config`), prompt tokenization, reading
  generated tokens back into words, request usage and the step state of an inference run
  (`handlers`, `text`), the defaults and settings used when a node starts
  (`startup`), the shared data types (`types`), and clock instants with the
  system clock's specifications (`clock`).
- `app/` is the node binary: command line, networking, settlement and
  clustering services, TOML configuration files, and the async request
  handler that drives the library.
- `tests/` runs the library on concrete inputs.
