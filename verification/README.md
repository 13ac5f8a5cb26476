# named_queue

Named, typed, bounded queues over [flume](https://crates.io/crates/flume), with
a graceful shutdown lifecycle, verified with Verus.

A registry holds queues under their names. A work-sharing queue delivers each
message to one receiver, in order, and makes its senders wait when it is full. A
broadcasting queue gives every subscriber a copy of each message that is sent
from then on; a subscriber that lags loses its oldest messages, and senders never
wait. `shutdown` refuses further sends and lets receivers drain what is there;
`destroy` discards it.

The library in `src/` is sequential: a registry is used by whoever has exclusive
access to it. A send or a receive that would have to wait, which `would_block`
tells, gets in line with `wait`: a send leaves its message there for a receiver,
and a receive is handed the next message that is sent. So a queue of capacity 0
passes a message whenever one side waits for the other. `app/` puts a registry
behind a lock, types the handles by their messages, and blocks the threads and
suspends the tasks between one `resume` and the next.

| Module | What it holds |
|---|---|
| `slot_channel` | The flume channel and what is trusted of it |
| `buffer` | A bounded first-in first-out buffer of messages |
| `wait_line` | The receives that wait, and what was handed to them |
| `channel`, `broadcast` | The two kinds of queue |
| `registry`, `bus` | Names, types and lifecycle |
| `sender`, `receiver` | The handles |
| `error`, `message_type` | Errors with their texts, the identity of message types |
| `model` | What the contracts speak of |
| `laws` | What holds across calls |

| Operation | Returns |
|---|---|
| `create`, `create_broadcasting` | `Ok(())`, or `QueueAlreadyExists` |
| `acquire_sender` | a `Sender`, or `NoSuchQueue`, `TypeMismatch`, `Shutdown` |
| `acquire_receiver` | a `Receiver`, or `NoSuchQueue`, `TypeMismatch`, `Shutdown` (closed and nothing to drain) |
| `shutdown` | `Ok(())`, or `NoSuchQueue`, `Shutdown` (still draining) |
| `state` | `Open` or `Closed` with the pending count, or `NoSuchQueue` |
| `destroy` | `Ok(())`, or `NoSuchQueue` |
| `destroy_take` | the unconsumed messages, or `NoSuchQueue`, `TypeMismatch` |
| `Sender::send` | `Ok(())`, or `Closed` with the message |
| `Sender::try_send` | `Ok(())`, or `WouldBlock` or `Closed` with the message |
| `Sender::resume` | how far a blocking send comes without waiting |
| `Sender::wait`, `is_waiting`, `give_up` | a ticket, whether it is still in line, the message back |
| `Receiver::recv` | a message, or `Closed` |
| `Receiver::try_recv` | a message, or `WouldBlock`, `Closed` |
| `Receiver::resume` | how far a blocking receive comes without waiting |
| `Receiver::wait`, `is_waiting`, `collect` | a ticket, whether it is still in line, the message handed over |
