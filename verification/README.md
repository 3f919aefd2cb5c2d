# rathole

The logic of a tunnel that makes services behind a NAT reachable through a
server, written in Rust and proved with Verus.

- `src/` is the library. Verus proves the contracts of its functions, except of
  those few that only call another crate (see below).
  - `cli`, `config`, `run`: the command line, the configuration that it makes up,
    and what becomes of a running instance when the configuration changes.
  - `api`, `api_client`: the control interface on the server's and on the
    client's side. `config_file` says what becomes of the configuration file.
  - `http_proxy`: the routing of HTTP requests by domain.
  - `keys`: key pairs for the Noise protocol.
  - `text`, `headers`, `name_map`: what the others rest on.
  - `api_laws`, `api_client_laws`, `http_proxy_laws`: what holds over several
    calls.
- `tests/` runs the library, with the crates that it calls.
- `app/` is what reads and writes sockets and files around it.

What the library takes on trust of other crates stands in functions marked
`external_body` and in `assume_specification` items; the comment above each says
what is claimed.
