# maios_kernel

The decision logic of a small operating system kernel, verified with Verus.
Hardware access, global state and waiting loops are kept out of it: a function of
the library takes what was read and says what to write, and the code under `app/`
performs that.

| Module | Contents |
| --- | --- |
| `task_struct`, `task`, `spawn` | tasks, run states, joining, spawning, restarts |
| `mks` | scheduler: EEVDF, real-time and deadline classes, work stealing, placement |
| `scheduler`, `scheduler_epoch`, `scheduler_priority` | timer ticks and two further policies |
| `mio` | asynchronous I/O: rings, operations, buffer pools, workers |
| `mps` | power: governors, P-states, C-states, thermal limits, budgets |
| `mhc` | heterogeneous compute: devices, fences, queues, shaders, VirtIO graphics |
| `nvme`, `partition_table`, `partition_device` | drives and partitions |
| `pe_loader`, `syscall`, `wasi_interpreter` | executables and system calls |
| `net`, `usb_hid`, `vfs_node`, `window`, `nano_core` | network set-up, keyboards, directories, windows, boot order |
| `bytes`, `decimal`, `text`, `ordered_map`, `id_map`, `name_map` | what the others share |

Every type with state has a view, and the contracts of its methods are stated as
functions from view to view. Properties that relate several operations are proof
functions next to the types they speak of, or in the `laws` modules.

Atomic counters of the running system are plain fields here that wrap around; a
caller holds the lock that gives it `&mut`.
