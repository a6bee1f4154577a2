//! A small library catalog: books, users and the loans between them.
//!
//! The catalog is an ordinary owned value. Every operation is specified
//! against a mathematical model of the catalog ([`model::LibraryView`]) and
//! proved to follow it; the model also carries the bookkeeping invariant
//! ([`model::LibraryView::wf`]) that every operation preserves.
use vstd::prelude::*;

pub mod model;
pub mod catalog;
pub mod listing;
pub mod laws;

verus! {

pub use crate::catalog::{Book, Library, User};
pub use crate::listing::{BookRow, Listing, RowView, Status};
pub use crate::model::{BookView, LibraryError, LibraryView, UserView};

} // verus!
