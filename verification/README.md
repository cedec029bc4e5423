# p11scope

The decisions of an observer that watches the PKCS #11 calls of other processes through kernel
probes: what is attached and in which order, what is trusted, when a child is paused and released,
and what is reported where something could not be seen. A gap in the evidence is always reported; it
is never taken as zero calls.

- `src/` holds the decisions. Every public function has a contract that is proved by Verus; what is
  believed of the few calls into other crates stands above each of them.
  - `cli`: the command line.
  - `attach`: loading the probes, attaching and detaching them, and what a session remembers.
  - `discover`: discovery by an unprivileged helper, hardened or not.
  - `discovery`: hooks, loader contexts, pinned objects, attribution of skips, and the coordinator
    that pauses an owned child.
  - `maps`, `record`, `text`: mappings, discovery records, and texts.
- `tests/` runs the library on values.
- `app/` does what the library decides: it reads from the kernel, starts processes and loads
  programs.

What is said of the world outside comes in as plain values, so that a contract holds whatever the
world answered. The coordinator of a pause calls the world through a trait whose log, which only
contracts speak of, holds every call with its reply; of the replies nothing is promised. A contract
of the coordinator says what it makes of the replies, and that the calls in its own history are
exactly those that entered the log.
