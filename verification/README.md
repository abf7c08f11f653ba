# panorama

A small distributed service registry. Each device on a LAN runs a node that
advertises the abilities it offers (taking photos, collecting running data, ...)
as service URLs in a replicated map (a CRDT map of observed-remove sets), and
any node can look up a URL for an ability.

Layout:

- `src/` is the library, verified with Verus:
  - `utils` builds service URLs, the broadcast address of a subnet and the
    node id (from a SHA-256 digest of the node's address);
  - `data` holds the replicated ability map (`crdt`), a node's store of it
    (`store`) and the node itself (`node`);
  - `device` describes the device kinds and the abilities each offers;
  - `bus` holds the device description and the peer-discovery replies;
  - `schedule` parses the interactive shell's commands.
- `app/` is the program around it: sockets, gossip, the HTTP handlers and the
  shell loop.
- `tests/` runs the library on concrete values.
