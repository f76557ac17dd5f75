# shadow_host

The host side of a network simulator, verified with Verus: eventfds, netlink sockets, descriptors,
the futex table, the entries of an epoll instance, and a beacon chain that is run in the simulation.

- `src/` is the library. Every function in it is verified against the contract in its header. What
  holds across several functions is stated by the `law_` functions.
- `tests/` runs the library, with the outside crates that it calls.
- `app/` is ordinary Rust around the library: the memory of managed processes, C objects, sockets of
  the host system, and the network.

What the library believes of outside crates without proof stands in the functions that are marked
`external_body` and in the `assume_specification` items. Each says what it claims, and of what.
