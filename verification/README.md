# port_monitor

A small desktop janitor for local development servers: it lists the processes
holding listening TCP ports and lets the user stop their own ones.

- `src/` is the verified library (Verus).
  - `port_enum::assemble` turns the raw socket facts into one entry per port
    (IPv4 binding preferred, current user resolved, sorted by port);
    `port_enum::filter` applies the port-range, system-port and user rules;
    `port_enum::{list_listening, snapshot}` compose the two;
    `port_enum::source` turns the socket table into the raw scan (one
    listener per listening row, in order);
    `port_enum::kill` chooses the signal for a kill.
  - `settings` holds the appearance and the port-range normalization.
  - `state` decides what each window command, tray menu item and click,
    close request, scan outcome and timer tick does.
- `app/` is the program around it: reading sockets (netstat2, sysinfo,
  whoami), sending signals (nix), settings on disk (confy), launch at login
  (auto-launch), the scanner thread, the egui window and tray, and the Tauri
  popover front-end.
- `tests/` runs the library on concrete scans.
