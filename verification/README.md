# donglora-bridge

A peer-to-peer bridge that connects `LoRa` dongles across the internet. Bridges
that share a passphrase meet in a gossip swarm; what one of them hears on the
radio, the others transmit.

- `src/` is the bridge's logic, verified with Verus: the wire format, SNR
  grading, deduplication, the rate limiter, the router, the decisions of the
  radio, gossip and network tasks, config validation, the setup wizard, and the
  text of the packet log and of the terminal panels.
- `app/` is the program around it: command line, files, sockets, the dongle,
  and drawing.
- `tests/` runs the library on concrete values.

Times are nanoseconds on one monotonic clock and are handed in by the caller,
so that everything in `src/` is a function of its arguments. Rates and times on
air are exact. Settings that are floating-point numbers are carried as
bit patterns.

The properties that hold of the library as a whole are stated as public proof
functions whose names begin with `law_`.
