//! Compiler from a declarative description of GATT services and
//! characteristics to a flat attribute table with read/write dispatch lists.
//!
//! A description is read in one of two grammars. The nested-record grammar
//! (`tokens`, `parser`, `records`, `config`) names services, their
//! characteristics and the handlers of each; `database` lays these out as
//! attribute records and `dispatch` routes messages to the handlers. The
//! explicit-entry grammar (`service_db`) lists services and characteristics
//! whose fields are expressions. `layout` states what a table holds and
//! `laws` what follows for every table.

pub mod config;
pub mod database;
pub mod dispatch;
pub mod flags;
pub mod hooks;
pub mod index;
pub mod laws;
pub mod layout;
pub mod model;
pub mod parser;
pub mod permissions;
pub mod records;
pub mod service_db;
pub mod text;
pub mod tokens;
