# Tunnel Mate

An SSH tunnel manager: local (`-L`), remote (`-R`) and SOCKS5 (`-D`) forwarding,
jump hosts, host-key trust decisions, automatic reconnect, connection diagnostics,
an activity log, configuration backups and launch at login. Tunnel passwords live
in the operating system's credential store, never in the configuration file.

The library in `src/` is verified with Verus: each public function states what it
returns or changes, and the properties that span several functions are proved as
public lemmas.

## Layout

- `src/config.rs`, `src/store.rs`, `src/edits.rs`: the configuration model, its
  validation, where it lives, the credential store, and the edits made to it.
- `src/manager.rs`: the runtime bookkeeping of tunnels (operations, statuses,
  reconnect schedule).
- `src/ssh_auth.rs`, `src/known_hosts.rs`, `src/host_key_prompt.rs`: authentication
  plans, server-key decisions against `known_hosts`, and the host-key prompt.
- `src/socks5.rs`: the SOCKS5 handshake as a state machine.
- `src/diagnostics.rs`, `src/diagnostic_run.rs`, `src/direct_diagnostics.rs`:
  what the diagnostics check and how they report it.
- `src/ssh_config.rs`: reading `~/.ssh/config` entries and `Include` patterns.
- `src/event_log.rs`: activity records and the size limits of the log file.
- `src/tunnel_form.rs`, `src/ui.rs`, `src/i18n.rs`: the decisions of the interface
  (form checks, tray menu, notices, filters) and its two languages.
- `src/autostart.rs`: launch at login through `auto-launcher`.
- `app/`: a command-line front end that performs the I/O (files, sockets, SSH
  sessions through `russh`, JSON through `serde`) around the library.
- `tests/`: tests of the library on concrete values.
