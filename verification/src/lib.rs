//! Bridges a native secp256k1 precomputed-multiplication context onto GPU
//! compute devices: translates the precomputed generator table into
//! uniform-buffer-sized partitions, encodes candidate scalars for the compute
//! kernel, plans bounded parallel dispatches per device, and interprets the
//! records the kernel writes back.

use vstd::prelude::*;

pub mod encoding;
pub mod errors;
pub mod interpret;
pub mod layout;
pub mod native;
pub mod session;
pub mod table;
pub mod validity;

verus! {

/// Number of rows in the precomputed generator table.
pub const TABLE_ROWS: usize = 64;

/// Number of table entries in one row.
pub const TABLE_COLS: usize = 16;

/// Total number of entries in the precomputed generator table.
pub const TABLE_ENTRIES: usize = 1024;

} // verus!
