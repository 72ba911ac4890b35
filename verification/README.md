# msim

A deterministic simulator for distributed systems, written in Verus.

The library in `src/` holds the rules of a simulation: time and timers, the simulated network and
its tcp connections, tasks and nodes, the blocking pool, and what a simulator test stands for. Its
functions carry contracts, and what holds of it as a whole is stated in the `law_` functions. What
rests on chance or on another crate is said where it is called.

| Module    | What it holds                                                                  |
|-----------|--------------------------------------------------------------------------------|
| `time`    | durations, the clock, timers with cancellation per node, sleeping, timeouts     |
| `net`     | addresses, latency and loss, mailboxes, routing, sockets, tcp connections       |
| `task`    | nodes and their tasks, the blocking pool, rounds of the executor, join handles  |
| `runtime` | the supervisor's view of it all, builders, the watchdog                         |
| `harness` | the attribute of simulator tests, and the runs that a test stands for           |
| `random`  | where random choices come from, and whether two runs make the same ones         |

`app/` runs the library: it polls futures and wakes them, runs the threads of the blocking pool,
offers sockets with the interfaces of tokio, keeps sets of tasks that are joined as they complete,
converts rates that are given as floating-point numbers, and reads environment variables.
