//! A formatter for SourcePawn source text.
//!
//! The library walks a concrete syntax tree and emits a canonically
//! formatted rendering of the program it describes.  The tree itself is
//! modelled by [`node::Node`]: a caller parses the source with a
//! SourcePawn grammar and hands the tree over as plain values.

pub mod alias;
pub mod assertions;
pub mod enum_structs;
pub mod enums;
pub mod expressions;
pub mod formatter;
pub mod functags;
pub mod functions;
pub mod hardcoded_symbols;
pub mod methodmaps;
pub mod node;
pub mod old_variables;
pub mod preproc;
pub mod settings;
pub mod source_file;
pub mod statements;
pub mod structs;
pub mod typedefs;
pub mod variables;
pub mod writers;
