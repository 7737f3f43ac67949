# net-combiner

A SOCKS5 proxy that spreads its connections over several network adapters, with an optional TUN
sidecar, a desktop window, a tray icon and an updater.

- `src/` is the library, verified with Verus: the balancing pool (`pool`), the SOCKS5 protocol
  (`socks`), the sessions of clients (`client`, `connect`, `relay`, `udp`, `carried`), addresses as values and
  as text (`addr`, `text`, `round_trip`), adapters and the command line (`adapter`, `cli`), the
  sidecar and updates (`vpn`, `update`), and the state and contents of the windows (`gui`, `monitor`,
  `view`, `texts`, `wording`, `theme`, `display`, `logs`, `tray`).
- `app/` is the program around it: sockets, files, processes, threads and drawing.
- `tests/` holds the tests of the library.

A session of a client is a value that takes what happened (bytes arrived, a name was looked up, an
attempt failed) and gives the next thing to do. The program does it and reports back.

The program reads its icon from `assets/net-combiner-icon.png` beside the executable. The tray of
macOS also needs the crate `tray-icon`, which the other systems do without and which is therefore
not among the dependencies.
