# siwx917

Burns firmware onto a SiWx917 over a serial port, through the Kermit bootloader in its ROM. The
library is written in Verus: every function states what it does, and Verus proves it.

The library does no I/O. Each activity (waiting for text, reading a packet, sending a file, running
a whole job) is a machine that asks its host for one thing at a time and takes the reply. `app/` is
such a host: it owns the serial port, the clock and the disk.

- `src/plugin.rs` runs a job; `src/session.rs` states what holds of every job, and
  `src/progress.rs` what it tells its user.
- `src/transfer.rs` sends a file; `src/delivery.rs` states what its receiver has in the end.
- `src/menu.rs` reaches the bootloader's menu, `src/report.rs` reads its verdict.
- `src/codec.rs`, `src/receive.rs` and `src/exchange.rs` are the packet protocol.

The functions named `law_…` relate several of the others, and are there to be read. What is not
proved is what the standard library does in five places: `char::is_whitespace` and `String::push` in
`src/text.rs`, `String::from_utf8_lossy` and the `Debug` format of `str` in `src/report.rs`, and
`Path::file_name` in `src/plugin.rs`.
