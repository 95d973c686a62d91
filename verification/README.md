# pico-fi

Logic of an Ethernet bridge for the RP2040. A W5500 carries a TCP link between two boards, or between a board and a
host. Each board serves one upstream: UART, I2C, SPI, USB CDC or a TCP test mode.

- `src/` is the library, verified with Verus.
- `tests/` holds the tests that run the library.
- `app/` is the firmware around the library: peripherals, network, tasks and the entry point. It also holds the Linux
  host backends and the build step that turns a JSON settings file into the compiled configuration.

## Library

| Module | Content |
| --- | --- |
| `bytes`, `text`, `scan`, `containers` | byte and text primitives, parsing, fixed-capacity buffers of `heapless` |
| `protocol` | framing of link frames, SPI transfers and I2C slots |
| `config`, `settings`, `storage`, `shell`, `startup` | configuration, build settings, flash record, boot shell, role selection and LED |
| `net` | bridge frames, link handshake, partial reads and writes |
| `bridge` | per-upstream state machines, queues, local commands and diagnostics |
| `host` | host side of the I2C and SPI protocols |

Functions marked `#[verifier::external_body]` wrap calls into `heapless`, `portable-atomic`, `embassy-time` and `core`.
Their contracts are believed, not proved; each one names the function it calls and says what is claimed of it.
