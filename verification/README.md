# bombay

A local actor runtime whose core is verified with Verus.

`src/` is the verified library. It holds no task, lock or socket: every
concurrent object is a state machine that is driven through `&mut self`, and
every asynchronous operation is split where it awaits.

| Module | What it decides |
| --- | --- |
| `address`, `nonzero` | logical addresses and bounded identities |
| `application`, `application_run`, `application_runtime` | declaration, startup, order and end of an application |
| `actor_interface` | external actors |
| `authoring`, `settlement` | what a turn asks for, and what came of it |
| `cloning` | what is required of values that are copied by cloning |
| `creation`, `child_bindings`, `capabilities` | creations, children and the interpretation of actions |
| `entity` | entity families: slots, directory, admission, passivation, shutdown, bounds |
| `established`, `observation` | observation of exact incarnations, peers and children |
| `generation`, `incarnation`, `launch`, `outcome`, `reports`, `terminal` | one execution, from startup to its terminal facts |
| `local`, `mailbox` | references, input, admission and retirement of a mailbox-backed actor |
| `observe` | completion cells: one publication, counted waiters |
| `prepare_workers` | ordered preparation of workers |

What a function decides by itself it states exactly, and for every error it says
when that error comes. Public proof functions named `law_*` state what holds of
several functions together.

The mailbox lanes come from `bombay-communication` and the creation identities
from `bombay-behavior`; what is claimed of them is stated at the few functions
that call them. What a lane holds depends on everybody who sends, so a function
that asks a lane states what it handed over and what it makes of the answer:
`opened_mailbox`, `answered`, `drained` and `admission_closed` in `mailbox` relate
a call to its answer.

A directory keeps its slots in one map and the effects of each slot in one queue.
A hash selects a shard by `shard_index`, but the hash of an identity differs from
process to process, and nothing is stored by it.

`app/` is ordinary Rust around the library: Tokio tasks, locks, wakers, timers,
the HTTP boundary and errors of the standard kind.
