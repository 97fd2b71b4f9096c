//! The decision logic of a latency-simulating HTTP service.
//!
//! A client names a delay in milliseconds as the single path segment of a
//! request; the service counts the request, waits that long and echoes the
//! delay back. The handlers and the texts are pure: the surrounding program
//! owns the sockets, the timer and the lock around the shared state. The one
//! function that reaches outside is `startup::open_file_limit`, which asks
//! the operating system for the limit on open files.

pub mod decimal;
pub mod delay;
pub mod message;
pub mod service;
pub mod startup;
