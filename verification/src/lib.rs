//! Two small runtime services: typed buffers of fixed length over the
//! allocator, and tasks that hand values to one another through ports.

pub mod buffer;
pub mod countdown;
pub mod delivery;
pub mod port;
pub mod task;
