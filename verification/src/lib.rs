//! An editor core for small labelled directed graphs.
//!
//! - `graph` holds the graph and its commands; `model` says what each
//!   command does, and `laws` what holds of every graph that commands build.
//! - `labels` reads what a label says besides its text, by the grammar of
//!   `scan`; `label_laws` says what holds of the text that is shown.
//! - `value`, `number`, `time` and `order` are the values that variables
//!   have, `variable` the variables.
//! - `pet` finds the cheapest and the costliest path, ranked as `paths` says.
//! - `json` is the document in which a graph is kept, `exporter` the view
//!   that a renderer gets, `graphviz` text for the `dot` notation.
//! - `parser` reads the command language, `helper` completes its lines.
pub mod command;
pub mod exporter;
pub mod graph;
pub mod graphviz;
pub mod hash;
pub mod helper;
pub mod json;
pub mod label_laws;
pub mod labels;
pub mod laws;
pub mod model;
pub mod names;
pub mod number;
pub mod order;
pub mod parser;
pub mod paths;
pub mod pet;
pub mod scan;
pub mod text;
pub mod time;
pub mod util;
pub mod value;
pub mod variable;

pub use crate::names::{CommandResult, Id, Label, Line};
pub use crate::parser::Command;
