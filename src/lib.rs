//! A single-threaded, single-producer, multi-consumer polling bus.
//!
//! `Bus` is the producer: it broadcasts values and mints readers. Each
//! `BusReader` receives its own copy of every value broadcast while it is
//! registered, and takes them out in order with `recv`.
pub mod registry;

pub use registry::{BusInner, RegistryView, RxSlot};
pub mod bus;
pub mod laws;

pub use bus::{Bus, BusReader};
