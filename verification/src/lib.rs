//! Verified building blocks of a set of concurrency-hazard demonstrations
//! for real-time systems: a single-producer single-consumer ring buffer, the
//! "take both locks or none" protocol, shared counters and tables, one-time
//! initialisation, task priorities and the reports of the demonstrations.

pub mod counting;
pub mod lazy;
pub mod once;
pub mod priority;
pub mod reports;
pub mod ring_buffer;
pub mod shared_table;
pub mod try_lock;
