//! A minimal cooperative task executor with a waker-driven timer primitive,
//! together with a collection of small, fully specified utility routines.
//!
//! The scheduler core is free of I/O: it never sleeps, blocks or spawns
//! threads. Time and wake-ups are delivered to it by the program that drives
//! it, which makes every transition a total function with an exact contract.
pub mod basic;
pub mod closures_iterators;
pub mod compose;
pub mod computation;
pub mod config;
pub mod enums_pattern_matching;
pub mod executor;
pub mod generic_type;
pub mod guessing_game;
pub mod lifetimes;
pub mod oop;
pub mod ownership;
pub mod poll;
pub mod queue;
pub mod references_borrowing;
pub mod run_laws;
pub mod search_text;
pub mod shared_state;
pub mod slice_type;
pub mod smart_pointers;
pub mod struct_example;
pub mod structs;
pub mod summary;
pub mod task;
pub mod timer;
pub mod wake;
