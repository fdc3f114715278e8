//! File layer: link counts of inodes, open flags and the decisions of the
//! link, unlink and open calls.

pub mod inode;
