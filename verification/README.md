# git-read-only-proxy

A read-only reverse proxy for the git smart-HTTP protocol. It forwards fetches
and clones to an upstream server and refuses pushes: requests whose path ends in
`/git-receive-pack` or whose query has the parameter `service=git-receive-pack`,
both as the client writes them and as they would go out to the upstream server.

A request goes to the upstream's URL without the slashes at its end, followed by
the request's path and query. One slash is put between them where they would
otherwise run together into the name of another server: before the target `*`,
behind a base that is a server's name alone.

What the proxy decides is a library, verified with Verus; what it reads and
sends is a program around it.

| | |
|---|---|
| `src/filter.rs` | which requests are pushes |
| `src/proxy.rs` | the steps of a request: refuse it, send it on, hand the answer back |
| `src/message.rs` | requests and responses as plain values |
| `src/config.rs` | how the server is to be run |
| `src/tls.rs` | the server's certificates and private key |
| `src/text.rs` | the string operations that the rules are written in |
| `src/laws.rs` | what holds of the proxy as a whole |
| `src/boundary.rs` | what is believed of the crates underneath |
| `app/` | arguments, connections, the HTTP client and the HTTP server |
