# vmm-sys-util for Windows, verified

Event loops, doorbells, named objects and shared memory for a virtual machine
monitor on Windows. What the kernel is asked, and what its answers mean, is
decided in verified code; the calls themselves are made around it.

- `src/` is the library, written and proved in Verus. It makes no system call.
  An operation that needs the kernel more than once is an enum whose variants
  are the calls to make (`Registering`, `Ctl`, `WaitStep`, `Mapping`, ...), with
  a function from a step and the kernel's reply to the next step. Handles,
  sockets and addresses are numbers there.
- `app/` is the Win32 glue: it makes the calls, owns the handles and the memory
  that the kernel writes to, and runs the steps.
- `tests/` drives the library against simulated kernels.

| Module | What it decides |
| --- | --- |
| `completion` | a completion port: submissions, cancellation, signals, timers, dequeuing, teardown |
| `epoll` | an interest list of sockets and handles, and waiting on it |
| `waitable` | whether a handle may be registered with either loop |
| `eventfd`, `event` | doorbells over auto-reset events |
| `section`, `mmap` | sections, and memory regions mapped from them |
| `named_object` | object names, and the descriptor that grants the creator alone |
| `afd` | polling a socket through its driver |
| `error`, `flags`, `text`, `utf16`, `sys` | errors, flag sets, text, and the numbers of the bindings |

What a module promises across calls stands as public proof functions: in
`completion/laws.rs` and `epoll/laws.rs`, and at the end of the other modules.
