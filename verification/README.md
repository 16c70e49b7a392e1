# os_process

The process management of a small RISC-V teaching kernel, verified with Verus: process control
blocks, the system calls of a process, the start of a program with arguments, and the detection
of lock requests that could end in a deadlock.

- `src/task/process.rs`, `src/task/process_laws.rs`: the process control block, and what holds of
  it over any run of calls.
- `src/task/launch.rs`: creating, forking and spawning processes, and giving one a new program.
- `src/task/user_stack.rs`: the arguments of a program on its user stack.
- `src/task/deadlock.rs`, `src/task/mutex_info.rs`, `src/task/deadlock_laws.rs`: deadlock
  detection and what holds of it over several calls.
- `src/task/id.rs`: pids and task ids.
- `src/syscall/process.rs`, `src/syscall/process_laws.rs`: the system calls, and what holds of
  each from its first event to its result.
- `app/`: the loops that run the library against the rest of the kernel.

Where a call needs the rest of the kernel in between, the library is called once for each event
and answers with what is to be done next. The contracts say what is asked for, in which order and
with which values, and what is made of every answer.
