//! A fixed-size worker pool as a verified state machine, with the laws that
//! hold of every interleaving of its callers and workers, and the small
//! routines that its front ends hand to it: prime search, the calculator's
//! request reading, the web page, and the plan of a sandboxed run.
//!
//! The pool does no waiting, sleeping or spawning of its own. Each call
//! moves it from one state to the next and says what the caller is to do:
//! whom to wake, how many threads to spawn, what a worker does next, whom
//! `join` still waits for.

pub mod calc;
pub mod error;
pub mod job;
pub mod laws;
pub mod model;
pub mod pool;
pub mod primes;
pub mod queue;
pub mod sandbox;
pub mod text;
pub mod web;
pub mod worker;
