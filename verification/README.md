# mario

Collects host statistics into RocksDB and watches the containers of the
local Docker engine.

- `src/` is the library, verified with Verus:
  - `text`: decimal numbers, whitespace, prefixes, suffixes and fields;
  - `cpu`: the CPU collector, reading `/proc/stat` and `/proc/cpuinfo`;
  - `mem`: the memory collector, reading `/proc/meminfo`;
  - `registry`: the registry of collectors, one per name;
  - `storage`: the keys of stored samples and how a container's are found;
  - `connector`: the Docker engine connector's paths, models and status check;
  - `mario_core`: the `Collector` trait and the clock;
  - `collector`, `core_errors`: plain data types.
- `app/` is the program around it: file and socket I/O, the store, the
  timers, and the serde and thiserror copies of the library's types.
- `tests/` runs the library on concrete inputs.
