# minitcp

A small userspace network stack that answers ARP and ICMP echo on a TAP
cable, with its protocol logic, command line, trace rendering and terminal-lab
decisions proved correct by Verus.

Layout:

- `src/proto/` — Ethernet, ARP, IPv4, ICMP, UDP and the Internet checksum:
  parsers and writers over byte sequences, with round-trip laws.
- `src/stack.rs`, `src/stack/` — one frame in, at most one frame out, with the
  trace of what happened; drop filters, the seeded loss generator, run
  sessions, and the laws the stack keeps.
- `src/event.rs`, `src/log/` — trace events and their quiet and verbose lines.
- `src/cli/` — flags, the configuration file, `--help`, settings and the laws
  that tie them together (command line over file over defaults).
- `src/interface/` — pcap records, hex frame lines and length-prefixed frames.
- `src/sys/` — decisions about child commands, Docker and TAP devices.
- `src/tui/` — scrollback buffers, key handling and screen text for the lab.
- `src/release.rs` — release tags and the update-check marker.
- `app/` — the program around the library: processes, sockets, the TAP
  device, Docker, the terminal UI loop and the update check.
- `tests/` — tests of the library from the outside.
