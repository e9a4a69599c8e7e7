# gvls

A virtual LAN service over an IPv6 closed network, with its decisions
verified by Verus. A web UI keeps accounts, VTEPs and VNIs in PostgreSQL;
route reflectors (RRs) sign in at the web UI and mirror its VTEPs and VNIs
into BGP (FRR or zebra-rs); VTEPs sign in at two RRs, join VXLAN segments and
let through the peers the RRs allow.

## Layout

- `src/` — the verified library.
  - `text`, `keyed`: text helpers and vectors used as sets and maps by key.
  - `models`, `messages`: accounts, RRs, VTEPs, VNIs and the messages carrying them.
  - `net`: IPv4 and IPv6 addresses as text (RFC 5952 for IPv6).
  - `bgp`: the `vtysh` / `vtyctl` commands that configure BGP.
  - `rtnl`: what is read from routing netlink messages.
  - `crypto`: password hashes (argon2) and random BGP passwords (rand).
  - `session`: ports, hellos and reconnection backoff of the control channels.
  - `config`: the command lines and environment of the four programs.
  - `ui`: the web UI's registry, its requests, its database rows and its pages.
  - `reflector`: the route reflector's events and the BGP changes they cause.
  - `vtep`: the VTEP's agent, its VXLAN setup and its choice of local address.
- `app/` — the programs around the library: sockets, TLS, the database
  client, netlink, HTTP and process execution. `gvls ui|rr|vtep|vtep-ctrl`.
- `tests/` — tests of the library.
