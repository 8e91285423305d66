//! Cursor-driven enumeration of the objects stored in a bucket of an object
//! store.
//!
//! The library holds the decisions: which page to ask for next, what to
//! report for each page that comes back, and when enumeration is over. The
//! caller performs each page request against the service and hands the
//! outcome back.
use vstd::prelude::*;

pub mod page;
pub mod enumerator;
pub mod laws;
