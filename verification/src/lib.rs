//! Layouts for columns of variable-length lists.
//!
//! A list column is stored as two or three columns: the validity of its rows, where rows may be
//! null, the offsets that cut its elements into rows, and the elements. [`writer`] takes the
//! chunks of a list column apart into pieces of those columns, [`layout`] describes how they
//! belong together, and [`reader`] puts rows together again. [`lists`] says what rows a column
//! holds, [`kernels`] calls the array library, and [`laws`] says what holds of all of it.
//! [`type_laws`], [`list_laws`], [`layout_laws`], [`reader_laws`] and [`writer_laws`] say of the
//! operations what they give for what goes in.

pub mod children;
pub mod dtype;
pub mod error;
pub mod kernels;
pub mod laws;
pub mod layout;
pub mod layout_laws;
pub mod list_laws;
pub mod lists;
pub mod reader;
pub mod reader_laws;
pub mod type_laws;
pub mod writer;
pub mod writer_laws;
