//! A small language to select objects by their fields.
//!
//! A selector names a field by its path and, optionally, compares its value:
//! `<fieldpath>[<operator><value>]`. `name==foo` matches the objects whose
//! field `name` has the value `foo`; `labels.foo` matches those that have a
//! label `foo`. Parts of a path can be quoted, as in
//! `labels."very complex label"==something`. The operators are `==`, `!=`
//! and `~=`, which takes its value for a regular expression. Selectors
//! joined by commas must all match: `name==foo,labels.bar`.

pub mod adaptor;
pub mod filter;
pub mod parser;
pub mod quote;
pub mod scanner;
