# debug_session

The state machine of a debug session: breakpoints, threads, frames, buffered output and the
exchange with a debug adapter that speaks the Debug Adapter Protocol.

`src/` is the library, verified with Verus. It does no I/O. A request of the user, such as
`DebugSession::add_breakpoint`, gives a `Step`: what is to be done next, most often a request to
the adapter, together with what the answer is for. The answer goes back to the session, which
gives the next step, until the request is `Done`. Opening a session works in the same way, with
`OpeningStep`.

- `session`: the session and everything that can be asked of it
- `state`: its state as a mathematical value, and what requests, answers and events make of it
- `step`: what a session wants done
- `setup`: launching and attaching
- `breakpoints`: the table of breakpoints
- `output`: the bounded buffer of output
- `paths`, `text`, `protocol`, `error`: what these are made of
- `laws`: what holds of a session as a whole

`app/` drives sessions over a live adapter with tokio: it sends the requests, waits for events and
keeps the log. `tests/` runs the library.
