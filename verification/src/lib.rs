//! The configuration-language front end of a build tool for packaged
//! game-content modules.
//!
//! Two things are done here. [`resolver`] finds the file that an include
//! directive names: beside the including file, through the addon prefixes
//! that the project declares ([`prefix`]), or in the shared directory of the
//! project. [`simplify`] turns a parse tree ([`parser`]) whose macros are
//! already expanded into a document of classes, properties and arrays.
//!
//! [`flow`] and [`preprocess`] hold the part of the build pipeline that
//! drives the two: steps, tasks, and the walk over the files of a module.

pub mod error;
pub mod flow;
pub mod fs;
pub mod parser;
pub mod paths;
pub mod prefix;
pub mod preprocess;
pub mod resolver;
pub mod simplify;
pub mod text;
