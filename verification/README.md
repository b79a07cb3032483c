# Video synchronization for mpv

A server and a client that keep mpv players on different computers in step.  What one user
does at their player (pause, resume, seek, change the speed) the players of the others do
too, and who falls more than five seconds apart is brought back together.

## Layout

- `src/` is the library.  What server and client decide about commands, messages and lines
  is decided here, and Verus proves it.
  - `double`: IEEE 754 doubles by their bits, with exact comparison, subtraction and floor
  - `text`, `time`, `wire`: digits and white space, positions in a video, lines on a stream
  - `protocol`: what server and clients tell each other
  - `server`: the synchronization server's state, and what it does about each command
  - `json`, `client::ipc_data_model`, `client::mpv`: the conversation with one player
  - `client::backend`: the broker between player, server and user
  - `client::config`: how the client is set up
  - `blocking`: a client and a server for blocking streams
- `app/` is the program around it: sockets, the clock, JSON, arguments.
- `tests/` runs the library.

The server writes bare player settings, without names (`server::ServerMessage`); the client
reads updates that name who caused them (`protocol::ServerMessage`).  This server and this
client do not yet understand each other: the step from the one form to the other is missing.

The functions named `law_..` state what holds across several functions.

## Running

```shell
./mpv_sync_server <server-addr>:<port>
./mpv_sync_client <server-addr>:<port> <video-file>
```

Both are the one program of `app/`, which goes by the name that it is called under; under
any other name a subcommand says what it is to be (`server`, `client`, `blocking-server`,
`blocking-client`).

Each client needs `mpv`.  The name of the user is the system's unless `-u` gives another.
