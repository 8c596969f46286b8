# countercow

A `btop` for .NET: live runtime counters, allocation and GC forensics, and a CPU profiler in one
terminal program that speaks the .NET Diagnostics IPC and EventPipe protocols directly over a Unix
socket.

The library under `src/` is written in Verus. What it computes is stated in contracts over
mathematical models and proved; the laws that span functions stand beside them as public proof
functions.

| Module | |
|---|---|
| `src/ipc/` | Socket discovery, message framing, process identity, starting and stopping traces. |
| `src/nettrace/` | The nettrace V4 stream format with V5 metadata tags: framing, blocks, compressed event headers, stacks, metadata and payloads. |
| `src/counters/` | Turning `EventCounters` events into samples, and how they are presented. |
| `src/runtime/` | GC, allocation, exception and contention events, and what they add up to. |
| `src/profile/` | Samples, the method rundown, and hot-method ranking. |
| `src/app.rs`, `src/rates.rs` | The state of a dashboard: readings, refresh rates, screens. |
| `src/ui/` | Keys, sessions, layouts, plots, colours and texts of the screens. |
| `src/cli.rs` | Which process is meant on the command line, and listings. |

Numbers that the runtime sends as floating point are carried as bit patterns; arithmetic on them,
sockets, threads and drawing stand in `app/`, which is ordinary Rust around the library.

What is taken on trust is small: two functions of `std` that build text (`String::push`,
`char::from_u32`), three more whose results are only named (lossy UTF-8 decoding, lower case, and
quoting as `{:?}` does), and ratatui's tables of braille and octant glyphs.

The tests in `tests/` run the library on concrete bytes and values.
