//! The logic of ember, a manager of lightweight virtual machines.

pub mod backend;
pub mod calendar;
pub mod cgroup;
pub mod cli;
pub mod command;
pub mod config;
pub mod device_mapper;
pub mod dm;
pub mod dm_thin_storage;
pub mod error;
pub mod extents;
pub mod firecracker;
pub mod firewall;
pub mod image;
pub mod ip;
pub mod iptables;
pub mod kernel;
pub mod linux_image;
pub mod macos_files;
pub mod macos_image;
pub mod macos_storage;
pub mod macos_vm;
pub mod mount;
pub mod network;
pub mod number;
pub mod packet;
pub mod path;
pub mod policy;
pub mod procedure;
pub mod reconcile;
pub mod rollback;
pub mod size;
pub mod ssh_exec;
pub mod storage;
pub mod store;
pub mod text;
pub mod thin;
pub mod thin_stack;
pub mod thin_tools;
pub mod thin_volumes;
pub mod transaction;
pub mod usage;
pub mod vdo;
pub mod vm;
pub mod vm_rules;
pub mod zfs;
