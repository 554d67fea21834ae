//! Extraction of the exported interface of a dynamically loadable
//! extension module: locating its metadata record in the binary image,
//! decoding the record's text fields, and parsing the embedded JSON
//! interface schema into a tree of callable functions and objects.

pub mod descriptor;
pub mod elf;
pub mod errors;
pub mod json;
pub mod schema;
pub mod types;
pub mod vmod;
