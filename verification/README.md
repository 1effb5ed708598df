# crewlink

The signalling core of a proximity voice server, verified with Verus, and the server around it.

Players of a game meet in lobbies. The server tells them about each other, relays the signals
by which they set up peer-to-peer voice, hands out the ICE configuration they need for that,
and keeps a list of the lobbies that ask to be public.

## Layout

`src/` is the verified library.

| Module | What it holds |
| --- | --- |
| `registry` | what the server knows, as a value, and how each event changes it |
| `state`, `tables` | the state itself, and the concurrent maps it is kept in |
| `socket` | the socket events: what each changes, and what has to be sent because of it |
| `lobby`, `listing`, `sid` | lobbies and their members, the public list, socket ids |
| `web`, `probe` | what the HTTP surface answers, and what the health probe makes of it |
| `config`, `standalone`, `turn` | the peer configuration, and time-limited relay credentials |
| `settings`, `text`, `time` | the environment, decimal numbers, lengths of time |
| `laws` | what always holds, whatever the sockets do |

Every handler in `socket` is stated as a transition of `registry::Registry`, and the laws speak
of those transitions: the memberships and the lobbies always agree, a signal never leaves its
lobby, the first claim to host holds until its holder leaves, a replay of the lobby stream has
no gap, and so on.

`app/` is the program: it owns the sockets, the HTTP routes, the clock of the rate limits and
the wire formats, and asks the library what to do. Called with `standalone` it serves the one
relay entry of its file; called with `healthcheck` it probes a running server instead.

`tests/` runs the library.
