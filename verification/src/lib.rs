//! A bump arena over a fixed number of bytes, with a list of heap blocks for
//! the requests that do not fit, and the layout arithmetic both rely on.
pub mod arena;
pub mod layout;

pub use arena::{
    AllocLocation, AllocSuccess, Allocated, Arena, ArenaError, ArenaView, HeapBlockView, HeapNode,
    HeapPtr, Region,
};
pub use layout::{Layout, LayoutError};
