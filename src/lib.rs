//! A bump allocator over a fixed address region, and a spin-locked wrapper
//! that serialises access to it.
pub mod bump;
pub mod lock;
