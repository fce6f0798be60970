//! Verified core of a family of Lua modules: regular expressions, parse-tree
//! navigation, JSON codec settings, JSON Schema checks, template-engine
//! conversions and file-system helpers.
pub mod text;
pub mod pairs;
pub mod lines;
pub mod regex;
pub mod draft;
pub mod jinja;
pub mod datetime;
pub mod codec;
pub mod fs;
pub mod path;
pub mod vm;
pub mod schema;
