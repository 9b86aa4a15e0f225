//! Introspection of a running 64-bit Windows guest: which kernel it runs, which
//! process and modules each virtual processor sees, where their symbols lie in
//! the address space, and which source lines those symbols cover.
//!
//! The library reads nothing itself. The host reads the guest and asks the
//! symbol service; it hands over what it read as plain values, and every
//! decision on those values is taken, and proved, here:
//!
//! - `memory`, `bytes`, `text`: a read of guest memory byte for byte, and the
//!   numbers and names in the bytes that were read;
//! - `version`, `layouts`, `kernel`, `locate`: the guest's version, the layout
//!   that goes with its build, and the way to the kernel's image;
//! - `process`, `enumerate`: the way to the current process, and the guarded
//!   walk over a list of modules;
//! - `resolver`, `names`: which modules have debug information, and which are
//!   known to have none;
//! - `symbols`, `intervals`, `interval_index`: symbols, their address
//!   intervals, and the index of one processor over them;
//! - `coverage`: the lines and functions known of each source file;
//! - `os_info`, `orchestrator`: what is known of the guest, and when it is
//!   refreshed.

pub mod bytes;
pub mod coverage;
pub mod enumerate;
pub mod error;
pub mod interval_index;
pub mod intervals;
pub mod kernel;
pub mod layouts;
pub mod locate;
pub mod memory;
pub mod names;
pub mod orchestrator;
pub mod os_info;
pub mod process;
pub mod resolver;
pub mod symbols;
pub mod text;
pub mod version;
