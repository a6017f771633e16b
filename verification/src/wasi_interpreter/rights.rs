//! Rights of file descriptors.

use vstd::prelude::*;

verus! {

pub const RIGHTS_FD_DATASYNC: u64 = 0x1;

pub const RIGHTS_FD_READ: u64 = 0x2;

pub const RIGHTS_FD_SEEK: u64 = 0x4;

pub const RIGHTS_FD_FDSTAT_SET_FLAGS: u64 = 0x8;

pub const RIGHTS_FD_SYNC: u64 = 0x10;

pub const RIGHTS_FD_TELL: u64 = 0x20;

pub const RIGHTS_FD_WRITE: u64 = 0x40;

pub const RIGHTS_FD_ADVISE: u64 = 0x80;

pub const RIGHTS_FD_ALLOCATE: u64 = 0x100;

pub const RIGHTS_PATH_CREATE_DIRECTORY: u64 = 0x200;

pub const RIGHTS_PATH_CREATE_FILE: u64 = 0x400;

pub const RIGHTS_PATH_LINK_SOURCE: u64 = 0x800;

pub const RIGHTS_PATH_LINK_TARGET: u64 = 0x1000;

pub const RIGHTS_PATH_OPEN: u64 = 0x2000;

pub const RIGHTS_FD_READDIR: u64 = 0x4000;

pub const RIGHTS_PATH_READLINK: u64 = 0x8000;

pub const RIGHTS_PATH_RENAME_SOURCE: u64 = 0x10000;

pub const RIGHTS_PATH_RENAME_TARGET: u64 = 0x20000;

pub const RIGHTS_PATH_FILESTAT_GET: u64 = 0x40000;

pub const RIGHTS_PATH_FILESTAT_SET_SIZE: u64 = 0x80000;

pub const RIGHTS_PATH_FILESTAT_SET_TIMES: u64 = 0x100000;

pub const RIGHTS_FD_FILESTAT_GET: u64 = 0x200000;

pub const RIGHTS_FD_FILESTAT_SET_SIZE: u64 = 0x400000;

pub const RIGHTS_FD_FILESTAT_SET_TIMES: u64 = 0x800000;

pub const RIGHTS_PATH_SYMLINK: u64 = 0x1000000;

pub const RIGHTS_PATH_REMOVE_DIRECTORY: u64 = 0x2000000;

pub const RIGHTS_PATH_UNLINK_FILE: u64 = 0x4000000;

pub const RIGHTS_POLL_FD_READWRITE: u64 = 0x8000000;

/// All rights of a directory.
pub const FULL_DIR_RIGHTS: u64 = RIGHTS_FD_FDSTAT_SET_FLAGS
    | RIGHTS_FD_SYNC
    | RIGHTS_FD_ADVISE
    | RIGHTS_PATH_CREATE_DIRECTORY
    | RIGHTS_PATH_CREATE_FILE
    | RIGHTS_PATH_LINK_SOURCE
    | RIGHTS_PATH_LINK_TARGET
    | RIGHTS_PATH_OPEN
    | RIGHTS_FD_READDIR
    | RIGHTS_PATH_READLINK
    | RIGHTS_PATH_RENAME_SOURCE
    | RIGHTS_PATH_RENAME_TARGET
    | RIGHTS_PATH_FILESTAT_GET
    | RIGHTS_PATH_FILESTAT_SET_SIZE
    | RIGHTS_PATH_FILESTAT_SET_TIMES
    | RIGHTS_FD_FILESTAT_GET
    | RIGHTS_FD_FILESTAT_SET_SIZE
    | RIGHTS_FD_FILESTAT_SET_TIMES
    | RIGHTS_PATH_SYMLINK
    | RIGHTS_PATH_REMOVE_DIRECTORY
    | RIGHTS_PATH_UNLINK_FILE
    | RIGHTS_POLL_FD_READWRITE;

/// All rights of a file.
pub const FULL_FILE_RIGHTS: u64 = RIGHTS_FD_DATASYNC
    | RIGHTS_FD_READ
    | RIGHTS_FD_SEEK
    | RIGHTS_FD_FDSTAT_SET_FLAGS
    | RIGHTS_FD_SYNC
    | RIGHTS_FD_TELL
    | RIGHTS_FD_WRITE
    | RIGHTS_FD_ADVISE
    | RIGHTS_FD_ALLOCATE
    | RIGHTS_FD_FILESTAT_GET
    | RIGHTS_FD_FILESTAT_SET_SIZE
    | RIGHTS_FD_FILESTAT_SET_TIMES
    | RIGHTS_POLL_FD_READWRITE;

} // verus!
