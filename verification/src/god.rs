//! The container writer: hash lists, part files, the header and file names.

use vstd::prelude::*;

pub mod chain;
pub mod con_header;
pub mod file_layout;
pub mod hash_list;
pub mod part;

pub use chain::{
    block_count, chain_hash_lists, chain_part_lists, div_ceil, part_count, part_data_len,
    parts_total_size, subpart_count,
};
pub use con_header::{ConHeaderBuilder, ContentType};
pub use file_layout::FileLayout;
pub use hash_list::{HashList, HashListView};
pub use part::write_part;

verus! {

/// Blocks of source data in one part file.
pub const BLOCKS_PER_PART: u64 = 0xa1c4;

/// Blocks of source data in one subpart.
pub const BLOCKS_PER_SUBPART: u64 = 0xcc;

/// Bytes in one block.
pub const BLOCK_SIZE: u64 = 0x1000;

/// Subparts in one part file.
pub const SUBPARTS_PER_PART: u32 = 0xcb;

/// Bytes of source data in one subpart.
pub const SUBPART_SIZE: u64 = 0xcc000;

} // verus!
