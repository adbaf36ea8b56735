//! The relay of one connection as a function from state and event to next
//! state and action.
//!
//! The two directions of a connection, client to pool and pool to client,
//! share one `ConnectionContext`. Whatever either direction reads from its
//! socket, from the job queue or from a timer is handed to
//! `ConnectionContext::handle` as an `Event`; the `Action` that comes back says
//! what to write and where. Reading and writing are the caller's part.

pub mod context;
pub mod laws;
pub mod model;
