//! A small in-memory vector store: vectors kept in insertion order, looked up by
//! position, and searched for the one nearest to a query.
use vstd::prelude::*;

pub mod float_order;
pub mod vector_database;

verus! {

} // verus!
