//! Diagnostic trace printer for streaming XML parse events.
//!
//! The library consumes the events of one XML document (a declaration,
//! start tags, end tags, self-closing tags, and anything else the parser
//! reports) and renders each as one line of an indented trace, two spaces
//! per level of nesting.  The parsing itself is done by the `quick_xml`
//! crate behind a small set of trusted wrappers; everything that decides
//! what the trace looks like is verified.

pub mod events;
pub mod paths;
pub mod render;
pub mod laws;
pub mod xml;
