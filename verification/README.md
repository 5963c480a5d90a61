# rebar

An actor runtime in the spirit of the BEAM, with its rules stated as contracts and proved with
[Verus](https://github.com/verus-lang/verus).

Processes have identities and mailboxes, supervisors restart them, servers answer calls, nodes
form a cluster and tell each other names and news. What each of these decides is a verified
function here; what waits, sends and receives is ordinary Rust around it.

## Layout

`src/` is the verified library.

| module | what it holds |
| --- | --- |
| `process` | identities, messages, exit reasons, mailboxes, monitors and links, the process table |
| `router`, `runtime`, `events` | delivery of messages to the processes of the runtime's own table or beyond, the life of processes, the event bus |
| `supervisor` | restart rules, the supervisor of a fixed order of children, and of children that come and go |
| `gen_server` | the payloads of calls and casts, the life of a server and of a call |
| `executor`, `task`, `time`, `io` | the run queue, timers, waits, and transfers in pieces |
| `cluster` | frames, the router between nodes, the registry of names and its convergence, membership and failure detection, connections, transports, leaving a cluster |
| `bridge`, `multi` | the threads of a node |
| `ffi`, `watcher`, `bench` | the C interface, the terminal watcher and the benchmark's services, on plain values |
| `term`, `msgpack`, `bytes`, `text`, `assoc`, `counter` | values, MessagePack, numbers in bytes, texts, maps and counters |

`app/` is the event loop, the network, the loops of supervisors and servers, the terminal and
the C functions. `tests/` runs the library on concrete values.

## What is trusted

The functions marked `external_body` call `tokio`, `local_sync`, `crossbeam_channel`, `rmpv`,
`rand`, `uuid`, `sha2` and the standard library. Each says what is believed of the call. Some
results are named rather than described: what an `rmpv` value holds, the bytes of a MessagePack
value, what is read from such bytes, a SHA-256 digest, a text in quotes, the kind of an input or
output error, the room of an event bus and of its receivers, the limit of a channel between
threads, and the settings of threads and of their builder.

What a mailbox, a channel, the clock or a random generator gives is not described either: the
contracts say which call it came from and what was handed to that call.
