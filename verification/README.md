# peppylib

The verified core of a library for robotics nodes, written in Verus. A node talks to
other nodes through topics, services and actions; this crate holds what such a node
decides, and proves that it decides it right.

- `src/` is the library. Verus checks every function in it but the wrappers named at the
  end. A contract states what a function does, wherever there is something to state, and
  the `law_*` proof functions state what holds across several calls.
- `app/` is the asynchronous program around it: tasks, transport, files and signals. It
  performs what the library decides and hands back what happened.
- `tests/` runs the library on concrete values.

## The library

| Modules | What they hold |
| --- | --- |
| `text`, `sorted_map`, `cardinality`, `error`, `payload`, `utf8`, `short_id` | the common ground |
| `envelope`, `cancel_ack` | the wire formats of actions |
| `tombstones`, `engine`, `action_server`, `goal`, `action_laws` | the server side of actions |
| `action_client`, `feedback`, `liveliness` | the client side of actions |
| `services`, `discovery`, `presence` | services and who answers them |
| `message`, `producer`, `filter`, `bound_set`, `topics` | topics and bound producers |
| `observation`, `pairing`, `slot_stream` | slots whose producers change at run time |
| `config`, `standalone`, `slot_setup`, `processor`, `endpoints`, `lifecycle` | how a node starts, runs and stops |

Times and durations are nanoseconds in a `u128`. The library reads no clock: a function
that depends on the time takes it as an argument. What only the transport can know, such
as whether a reply arrived, is an argument as well, so each contract covers every value
of it.

## What is trusted

The contracts of the byte buffers of `bytes`, of the Cap'n Proto messages of `capnp`, of
`rand::random` and of two functions of the standard library are stated and not proved.
Each stands at a small wrapper whose comment names the function it speaks of.
