# scan_core

The decision logic of a port scanner as a verified library: what to scan, in
what portions, what to report, and what to tell the user meanwhile.

- `src/` is the library. Every function states what it returns or changes, and
  Verus proves it, but for what calls out of the library: the four wrappers
  `parse_inet`, `gradient`, `bold` and `quote`, and the clock. Their doc comments
  say what is claimed of them without proof.
- `app/` is the program around it: command line, sockets, threads, terminal.
- `tests/` runs the library on concrete values.

| module | what it decides |
| --- | --- |
| `session` | the course of a scan, streamed or at once |
| `open_ports` | which ports are open on which host |
| `progress`, `display` | how far a scan has come, and how that is shown |
| `limits` | how many sockets are open at a time |
| `cidr` | which targets are too large to hold in memory |
| `ports` | which ports are scanned |
| `scripts` | what happens with the open ports of a host |
| `opening` | what is shown before a scan |
