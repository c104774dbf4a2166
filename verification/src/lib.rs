//! Random-access lookup over MDX/MDD dictionary files.
//!
//! An MDX file maps headwords to definitions; its companion MDD files map
//! virtual paths to embedded resources. This crate parses the layered
//! header of such a file from its bytes, builds the keyword index, and
//! decodes single records out of their compressed blocks.

pub mod error;
pub mod wire;
pub mod checksum;
pub mod order;
pub mod text;
pub mod backend;
pub mod record;
pub mod keymap;
pub mod codec;
pub mod xml;
pub mod number;
pub mod header;
pub mod key_prelude;
pub mod key_directory;
pub mod key_block;
pub mod record_directory;
pub mod layout;
pub mod resource_key;
pub mod lookup;
pub mod index;
pub mod mem_index;
pub mod cache;
pub mod cache_protocol;
pub mod paths;

pub use crate::cache::CacheAction;
pub use crate::cache::MddBlock;
pub use crate::cache::MddIndex;
pub use crate::cache::MddQuery;
pub use crate::cache::MdxBlock;
pub use crate::cache::MdxIndex;
pub use crate::cache::MdxQuery;
pub use crate::cache_protocol::CacheCommand;
pub use crate::cache_protocol::CacheEvent;
pub use crate::cache_protocol::CacheState;
pub use crate::error::MDictError;
pub use crate::header::MDictHeader;
pub use crate::header::MDictMode;
pub use crate::index::MDictIndex;
pub use crate::key_block::MDictKeyEntry;
pub use crate::key_directory::MDictKeyBlockInfo;
pub use crate::layout::MDictLayout;
pub use crate::lookup::lookup;
pub use crate::mem_index::MDictLookup;
pub use crate::mem_index::MDictMemIndex;
pub use crate::mem_index::MDictResourceFile;
pub use crate::record::MDictRecordBlockIndex;
pub use crate::record::MDictRecordIndex;
pub use crate::text::MDictEncoding;
