# snakecli

A terminal snake game: a host keeps a shared playground and runs every client's snake;
clients send keys and show the part of the playground around their snake. A single-player
game on a 256 by 256 arena is included.

- `src/` is the library, verified with Verus: the playground and snakes (`model`), the
  host's rules (`server::functions`, `server::host`), the client's pacing and key handling
  (`client::user`), the single-player game (`game`), and the properties that hold across
  them (`laws`). Random draws (`chance`) and text styling go through small trusted
  wrappers around `rand` and `crossterm`.
- `app/` is the program around it: command line, sockets, terminal drawing and the JSON
  messages between host and client.
- `tests/` exercise the library on concrete games.
