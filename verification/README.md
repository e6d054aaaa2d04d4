# floppa-cli

A command-line client for Floppa VPN. It logs in through the browser, keeps a
WireGuard, AmneziaWG or VLESS tunnel up, lists peers, prints configurations and
installs itself as a systemd unit.

- `src/` is the library, verified with Verus: what each command does next
  (`run`), the login (`login`, `callback`), the token and its expiry (`token`,
  `time`, `calendar`), the systemd unit (`service`), the steps of a tunnel
  (`tunnel`), exit codes (`exit`), and the text and numerals beneath them
  (`text`, `numerals`). Proof functions named `law_..` state what holds of
  several of these together.
- `app/` is the program around it: arguments, files, sockets, the browser,
  `systemctl`, and the interface to the network drivers.
- `tests/` runs the library.

What is taken on trust is the decoding of base64, JSON and lossy UTF-8, and
`String::push`; each such item says in its comment what it claims.
