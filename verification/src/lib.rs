//! A JSON Schema engine: schema documents are compiled into validator trees,
//! registered in a scope under their canonical identifiers, and instances are
//! validated against them with every violation collected.

pub mod keywords;
pub mod laws;
pub mod number;
pub mod schema;
pub mod scope;
pub mod text;
pub mod uri;
pub mod validators;
pub mod value;
