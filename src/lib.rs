//! Read-only access to the pages of a B+Tree table-storage file: the page
//! header codec, the page type registry, typed views over data and index
//! pages, and a pin-counted, capacity-bounded buffer manager.
pub mod bytes;
pub mod page;
pub mod index;
pub mod data;
pub mod buffer;
pub mod simple;
