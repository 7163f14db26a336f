# signaling

A signaling server for peer-to-peer file transfers over WebRTC. Senders open a
transfer session, receivers ask to join it, the sender approves a receiver with
the session's token, and the server then passes session descriptions and ICE
candidates between the two. It never relays file data.

The rules of the server are a Verus library: each function states in its
contract what it returns and what it changes, and Verus proves it.

## Layout

- `src/` is the library.
  - `rules` says what each request does to the peers and sessions, and when it
    is refused; `state` carries it out.
  - `signaling` deals with a client's message and sends what follows from it.
  - `ws_handler` lets connections in and reacts to what comes in on them: the
    limits on size, rate and bad messages, and the protocol version.
  - `logs` writes what is logged of a client's message, with tokens, session
    descriptions and candidates redacted.
  - `config`, `security`, `errors`, `models`, `ids` and `text` hold the settings,
    the random codes and what logs may show, the refusals, the messages, peer
    ids, and the reading and writing of texts.
  - `tables` and `clock` are the library's edges to the concurrent maps, the
    channels of the peers in them, and the clock. The library sends on a channel
    only through the table of peers, whose contracts keep account of all that goes
    out.
  - `laws` states what holds of the server as a whole.
- `tests/` runs the library.
- `app/` is the server around it: settings from the environment, HTTP and
  WebSocket routes, JSON, and logging.

## What is not proved

The contracts of the functions and types marked `external_body`, and of the
`assume_specification` items, are taken as they stand: those of `dashmap`,
`tokio`'s channel, `uuid`, `rand`, `serde_json`, and a few of std. Each says in
its comment which outside function it speaks of and what it claims.

Times are nanoseconds on the server's own clock. The library takes the state by
`&mut`; the server keeps it behind a lock.
