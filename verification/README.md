# sonetto

Redirects the network traffic of one game process to private servers: requests over WinHTTP, name
lookups, certificate checks, and connections, which go through relays on the same machine.

`src/` is the library. It takes plain values and gives plain values back: addresses, bytes, texts,
and what is to be done next. All of it is verified, but for a few calls into the standard library and
four constants of the `windows` crate, whose contracts are taken as they are.

| module        | what it decides                                                            |
|---------------|----------------------------------------------------------------------------|
| `addr`        | IPv4 addresses, and the IPv6 addresses that stand for them                 |
| `config`      | which configurations are accepted                                          |
| `connect`     | where a connection of the game goes                                        |
| `diagnostics` | the lines of the log, the names and events of relays                       |
| `encoding`    | text as UTF-8 bytes and UTF-16 code units                                  |
| `host`        | which hosts are official, and which host a URL or a CONNECT request names  |
| `modules`     | what the two modules set up and hook                                       |
| `network`     | answers to WinHTTP, lookups and certificate checks                         |
| `relay`       | what a relay does, and which one listens on which port                     |
| `route`       | what a relay reads, and where it forwards the bytes                        |
| `startup`     | the steps of the startup, and what the launcher does                       |
| `text`        | searching and writing text                                                 |
| `tls`         | the server name of a TLS ClientHello, and how it is replaced               |
| `util`        | how the first word of a system routine is restored                         |

`app/` holds two roots: `main.rs` is the launcher, and `lib.rs` is the part inside the process, which
makes `sonetto.dll`. They do what the library decides on: files, sockets, threads, hooks and memory,
in the order in which the system needs them. `tests/` runs the library on concrete values.
