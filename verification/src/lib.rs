//! Hash-consing: a table that keeps one canonical cell per distinct value and
//! hands out counted handles to it. A cell is reclaimed the moment its last
//! handle is released.
//!
//! A [`HashConser`] owns the cells. [`HashConser::make`] interns a value and
//! returns a [`HashConsed`] handle; structurally equal values get handles to
//! the same cell, which compare equal and hash alike in constant time. The
//! table counts the handles of each cell: [`HashConser::clone_handle`] adds
//! one, [`HashConser::drop_handle`] takes one off and reclaims the cell when
//! none is left. The table counts the references to itself in the same way,
//! one for each owner and one for each cell, and is torn down when the last
//! of them is gone.
//!
//! Every operation states what it does to the view of the table, a map from
//! values to cells. The module [`laws`] proves what follows for all tables.

pub mod cell;
pub mod conser;
pub mod handle;
pub mod laws;
pub mod render;
mod trusted;

pub use cell::{CellId, Entry};
pub use conser::HashConser;
pub use handle::HashConsed;
