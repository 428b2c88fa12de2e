# Watch Party

A server that keeps the video players of its clients in step, and the client that does what it says.

1. A client connects over TCP and names itself.
2. The server asks for the client's clock a hundred times and learns how far it is behind.
3. The server tells the client which video to load, by which HTTPS link it can be had, and whether it plays.
4. The host types a command to play or to pause, and every client is told, each on its own clock.

## Layout

- `src/` is the logic, verified with Verus. `message`, `varint`, `codec` and `wire` are the messages and
  their bytes; `clock` and `samples` are how one clock is told by another; `room` and `console` are what
  the host does; `session` is what the server does with one client; `client` and `content` are what a
  client does; `protocol` holds what is proved of both sides together.
- `tests/` runs the library.
- `app/` is the two programs: sockets, files, the player, and arithmetic on floating-point seconds.

The program takes one argument: `watch_party server` or `watch_party client`.

## What is trusted

- `codec`: how `postcard` writes and reads integers and texts.
- `content`: that a `ring` digest context takes in bytes in order, and that equal bytes have equal digests.
- `console`: that `String::from_utf8_lossy` keeps text that is UTF-8.

## Configuring

A client reads the server's `address:port` from `config.json`:

```json
{ "host": "127.0.0.1:3945" }
```

The server listens on port 3945 and loads the first video in `videos.json`, if there is one:

```json
[{ "hash": { "Sha256": "ba78..." }, "name": "film.mp4", "download": { "Https": "https://..." } }]
```

At the server's prompt an empty line plays or pauses, `t` says something to every client, and `exit` ends it.
