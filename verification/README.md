# pesim-rs

A cycle-accurate, bank-level simulator of processing-in-memory engines, written as a Verus
library: the functions of `src/` carry contracts that Verus proves, with the exceptions below.

The flat memory of each engine is an `FxHashMap` from `rustc-hash`. The two functions that
call into it, `fx_get` and `fx_insert` in `src/memory/flat_memory.rs`, are trusted: Verus
believes their contracts (a lookup and an insertion on the map's contents) without reading
their bodies. The declarations of the outside types `FxBuildHasher` and `std::path::PathBuf`
are trusted in the same way. Everything built on them is proved.

Two kinds of engine sit beside each pseudo bank of a DRAM bank:

- a CGO engine, a small five-stage pipelined CPU (`src/cpu/`) booted from a descriptor table
  and a program image in its flat memory (`src/cpu/boot_fsm.rs`);
- an FGO engine, a PE that runs one host-issued vector instruction at a time (`src/PE/`).

`src/memory/` holds the typed flat memory, the address-generation unit, the request portal
between a processor and the DRAM timing model, and the bookkeeping of requests in flight in
that model. `src/sim_engine/` holds the command page decoder, the allocation of pseudo banks
to engines, the scheduling state machine that shares a bank between an engine and the host,
the host request pool and CGO command queues, the run harness, and the controller-level state
of the simulator (completion queues, broadcast commands, engine slots, worker shards).

The DRAM timing model itself is an external C++ simulator; the library takes what it reports
as arguments and returns what it must be told, and `app/` holds the host-side glue: file-system
setup, trace and timing output, and fatal reports.

`tests/` runs the library on concrete scenarios.
