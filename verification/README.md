# herdr

The decisions of Herdr, a terminal workspace for coding agents, as a verified
library: which command a line of arguments is, what becomes of a queued message,
which peer answers a request, when a terminal may be shown on another host and
when it comes back. Every function states in its contract what it returns and
what it changes, and Verus proves it.

## Layout

- `src/` is the library.
  - `api` holds the requests and replies of the socket API, the rules of waiting
    for output and events, and where the socket for peers lies.
  - `app` is the state of a running server: terminals, panes, peers, delegated
    presentations, owner leases, control clients. `app/api` answers requests
    about it. What has to be done outside is listed as effects.
  - `cli` parses the command line and decides what each command prints, sends
    and exits with. Commands that talk back and forth are step functions.
  - `desktop_queue` is the message queue between command-line agents and desktop
    clients: channels, leases, acknowledgements, quotas, recovery.
  - `desktop_mcp` is the bridge that desktop clients use: which tools are
    allowed, what parameters are accepted, how results are bounded, how a CLI is
    launched, found and stopped.
  - `text`, `json`, `path`, `digest` and `random` are the common ground.
- `app/` is ordinary Rust around the library: the socket, the spool directory,
  the MCP server, the command line's input and output.
- `tests/` runs the library on concrete values.

Laws that relate several functions are public proof functions; the larger
collections are `desktop_queue::laws`, `desktop_queue::settled`, `app::laws`,
`app::letting_go`, `app::handed_back` and `app::endings`.
