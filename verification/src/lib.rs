//! Acquiring pessimistic locks on a set of keys.
//!
//! A transaction that reads a row it is going to change first takes a lock on it. One request
//! names the keys, the flags that say what happens when a key is already locked, and what is to
//! be reported for each key. The storage engine tries the keys one at a time and says what it
//! found; this library decides what that means for the request: what is written, what the client
//! is told, and whether the request goes to the lock waiting queue.
//!
//! * [`command`] holds the request, [`run`] the decisions taken reply by reply.
//! * [`outcome`] says what a request with given replies comes to; [`laws`] and [`guarantees`] prove
//!   what follows, and [`views`] that views show values as they are.
//! * The other modules hold the data that goes in and out.

pub mod bytes;
pub mod command;
pub mod errors;
pub mod guarantees;
pub mod laws;
pub mod lock;
pub mod old_values;
pub mod outcome;
pub mod reply;
pub mod results;
pub mod run;
pub mod txn;
pub mod types;
pub mod views;
pub mod write_data;
