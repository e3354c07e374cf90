# cdp_server

A Chrome DevTools Protocol server for a browser, as a library that is verified
with Verus. The server takes what clients and the browser send, and says what is
to be written to which connection and what is to be asked of the browser. It
does no input or output of its own.

- `src/websocket.rs`, `src/handshake.rs`: the WebSocket protocol, on bytes.
- `src/protocol.rs`, `src/json.rs`, `src/headers.rs`, `src/encoding.rs`,
  `src/text.rs`: how values are written.
- `src/model.rs`, `src/server.rs`: the state of the server and what is queued.
- `src/events.rs`, `src/network.rs`, `src/control.rs`: what the browser reports.
- `src/dispatch.rs`, `src/browser.rs`, `src/session.rs`: the commands of clients.
- `src/requests.rs`, `src/outcomes.rs`, `src/dom.rs`: what is asked of the
  browser, and what comes of it.
- `src/endpoints.rs`, `src/discovery.rs`: the HTTP discovery endpoints.
- `src/invariants.rs`, `src/laws.rs`, `src/replies.rs`: what holds of the server
  as a whole.
- `src/navigatorinfo.rs`, `src/servolog.rs`: what `navigator` says, and the page
  that shows the log.
- `app/`: sockets, threads, files and floating point.
