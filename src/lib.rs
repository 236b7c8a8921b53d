//! Catalog of installed packages: parsers for the package manager's text
//! reports, the in-memory catalog, the bookkeeping of background operations and
//! the screen/selection state machine of the interactive front-end.

pub mod lexer;
pub mod version;
pub mod errors;
pub mod krate;
pub mod listing;
pub mod detail;
pub mod selection;
pub mod depot;
pub mod views;
pub mod roundtrip;
