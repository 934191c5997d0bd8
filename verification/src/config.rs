//! The build configuration: a small line-oriented key/value document, and the
//! chip that its build target stands for.
//!
//! The syntax is the core of what build tools write into their
//! configuration files:
//!
//! ```text
//! # a comment
//! [build]                          # a section header
//! target = "thumbv6m-none-eabi"    # a pair with a quoted text
//! jobs = 4                         # a pair with a bare word
//! rustflags = [                    # a pair with a list, which may go on
//!   "-C", "link-arg=-Tlink.x",     # over the following lines
//! ]
//! ```
//!
//! An entry is known by its full name, `build.target` here, whether the
//! document writes it under a header or with a dotted key.
//!
//! Texts that span lines, tables within a line and escape sequences are not
//! part of the syntax; a document that holds one is reported as unparseable,
//! with the number of the line, rather than guessed at.

pub mod document;
pub mod line;
pub mod resolve;
pub mod scan;
