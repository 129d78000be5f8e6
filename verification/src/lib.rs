//! An interactive store for delimited text files: headers are normalized into
//! safe column identifiers, files are loaded into an in-memory relational
//! store, and ad-hoc queries are answered through a read-eval-print loop with
//! word completion over keywords and discovered column names.

pub mod text;
pub mod normalize;
pub mod sqlgen;
pub mod vocab;
pub mod complete;
pub mod repl;
pub mod store;
