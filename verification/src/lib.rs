//! Verified core of the Mai operating system kernel.

pub mod bytes;
pub mod decimal;
pub mod id_map;
pub mod mhc;
pub mod mio;
pub mod mks;
pub mod mps;
pub mod name_map;
pub mod nano_core;
pub mod net;
pub mod nvme;
pub mod ordered_map;
pub mod partition_device;
pub mod partition_table;
pub mod pe_loader;
pub mod scheduler;
pub mod scheduler_epoch;
pub mod scheduler_priority;
pub mod spawn;
pub mod syscall;
pub mod task;
pub mod task_struct;
pub mod text;
pub mod usb_hid;
pub mod vfs_node;
pub mod wasi_interpreter;
pub mod window;
