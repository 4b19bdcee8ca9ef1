//! A block-structured document editor core.
//!
//! A document is an ordered sequence of typed content blocks, each
//! independently editable. Documents are persisted whole to a key-value
//! store and auto-saved on focus-loss edges. The modules below cover the
//! block/document data model, the binary persistence codec, the storage
//! engine, and the editor orchestration with its save-trigger policy.

pub mod block;
pub mod clock;
pub mod codec;
pub mod document;
pub mod editor;
pub mod ids;
pub mod plugin_api;
pub mod storage;

pub use block::Block;
pub use block::BlockKind;
pub use document::Document;
pub use document::StoredBlock;
pub use editor::LoveNote;
pub use storage::Storage;
