# wasm_bench

The verified core of a WebAssembly benchmarking framework for SmartNIC-attached
servers: guest workloads compiled to WASI, and an HTTP host that runs a guest once
per request through Wasmtime.

- `src/` is the library, proved with Verus:
  - `cpu_hash`, `net_checksum`, `net_scan`, `mem_stream`, `mem_random`: the guest
    workloads and the replies they write back;
  - `encoding`: the byte orders of those replies;
  - `invoke`: the state machine that decides each step of serving a request
    (instantiate, reserve guest memory, copy in, handle, read back, release);
  - `config`, `text`, `timing`: the host's settings, arguments and time reports.
- `app/` is the program around it: the Wasmtime and hyper host, the guests' memory
  ABI, and the floating-point matrix guest.
- `tests/` runs the library on concrete values.
