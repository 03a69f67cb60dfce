# chat_server_tokio

A small chat: a server that passes messages around, and a client for the terminal.

- `src/` is the library, verified with Verus: messages and their JSON (`message`, `json`),
  their framing on a connection (`pakket`, `incoming`), dispatches (`dispatch`), the pool of
  user identifiers (`id_pool`), what the client and the server decide (`client`, `server`), and
  the plain packets without limits (`paket`).
- `app/` connects the library to sockets, the terminal and the JSON parser. Its first argument
  is `server` or `client`.
- `tests/` runs the library on concrete values.
