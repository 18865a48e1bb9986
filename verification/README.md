# tcp_chat

A chat over TCP, one line a message. `src/` is a Verus library with the rules of the server and of
the client, each with its contract. `app/` runs them on real connections, threads and locks.

| module          | what it holds                                                        |
|-----------------|----------------------------------------------------------------------|
| `server`        | the main thread of the server: listening, letting clients in, ending |
| `client_reader` | the reader of one client                                             |
| `broadcaster`   | the thread that tells the clients                                    |
| `roster`        | the connected clients                                                |
| `message`       | what the readers hand to the broadcaster, and the words for it       |
| `client`        | the client: connecting, sending, showing, quitting                   |
| `conversation`  | what holds from one end of the chat to the other                     |
| `clock`         | local time as text, read from `chrono`                               |
| `number`        | decimal numerals                                                     |
| `text`          | trimming, letter case, the text of a line                            |

The server, the readers, the broadcaster and the client are machines. Each says what to do next,
and is told what came of it.
