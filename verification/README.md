# prosa-hyper

HTTP client and server processors for ProSA, with their decisions verified by Verus.

- `src/` is the verified library. Every function there is a function of plain values with a contract
  that says what it returns; the properties that span several of them are public proof functions
  named `law_*`.
- `tests/` runs the library with the outside crates it calls.
- `app/` is the asynchronous program: it runs the ProSA processors, the sockets and the listeners, and
  performs what the library decides.

| Module | What it decides |
| --- | --- |
| `backoff` | how long a socket waits before it connects again |
| `io` | where the processors connect and listen, and what they negotiate |
| `client::pool` | which sockets exist, and what is asked of each when settings change or tasks end |
| `client::socket` | what a socket does with each event, from the wait to the drain |
| `client::proc` | how the client processor starts, reloads and stops |
| `server::proc` | how the server routes requests, brings answers back, rebinds and drains |
| `server::service`, `server::adaptor` | what HTTP response an outcome becomes |
| `server::mcp` | how the MCP server routes its calls |
| `message`, `error` | HTTP responses, and what goes wrong |
