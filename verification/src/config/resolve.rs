//! From the bytes of a build configuration to the chip it is built for.

use vstd::prelude::*;
use crate::chip::{ascii, ascii_bytes, chip_for, chip_for_target, Chip};
use crate::config::document::{
    declares, document_of, flawed_line, law_written_documents_read_back, value_of, well_formed,
    written_document, Document,
};
use crate::config::line::{writable, written, LineView, Value, ValueView};
use crate::config::scan::NEWLINE;

verus! {

/// Why no chip could be derived from the build configuration. Each cause has
/// a kind of its own, so that the operator can tell them apart.
#[derive(Clone, Copy, Debug, PartialEq, Eq)]
pub enum ConfigError {
    /// The configuration file could not be read.
    Unreadable,
    /// The file is not a configuration document; `line` is the number, from
    /// one, of the first line that cannot be understood.
    Unparseable { line: usize },
    /// The document has no `[build]` section.
    MissingBuildSection,
    /// The `[build]` section has no `target` entry.
    MissingTarget,
    /// The `target` entry is not a quoted text but a bare word or a list.
    TargetNotText,
    /// The target is not in the table of recognised targets.
    UnknownTarget,
}

/// The name of the section that holds the build settings.
pub open spec fn build_section() -> Seq<u8> {
    ascii_bytes("build"@)
}

/// The key under which the build section names the compilation target.
pub open spec fn target_key() -> Seq<u8> {
    ascii_bytes("target"@)
}

/// The chip that a document is built for: the one that the table of
/// recognised targets gives for the text under `target` in `[build]`.
pub open spec fn chip_of(lines: Seq<LineView>) -> Result<Chip, ConfigError> {
    if !declares(lines, build_section()) {
        Err(ConfigError::MissingBuildSection)
    } else {
        match value_of(lines, build_section(), target_key()) {
            None => Err(ConfigError::MissingTarget),
            Some(ValueView::Bare(_)) => Err(ConfigError::TargetNotText),
            Some(ValueView::List) => Err(ConfigError::TargetNotText),
            Some(ValueView::Text(target)) => match chip_for(target) {
                Some(chip) => Ok(chip),
                None => Err(ConfigError::UnknownTarget),
            },
        }
    }
}

/// The chip that a build configuration stands for, where `contents` is what
/// reading the file gave: its bytes, or nothing if it could not be read.
pub open spec fn resolution(contents: Option<Seq<u8>>) -> Result<Chip, ConfigError> {
    match contents {
        None => Err(ConfigError::Unreadable),
        Some(text) => if well_formed(text) {
            chip_of(document_of(text))
        } else {
            Err(ConfigError::Unparseable { line: (flawed_line(text) + 1) as usize })
        },
    }
}

/// Finds the chip that `document` is built for.
pub fn target_chip(document: &Document) -> (chip: Result<Chip, ConfigError>)
    ensures
        chip == chip_of(document@),
{
    proof {
        reveal_strlit("build");
        reveal_strlit("target");
    }
    let section = ascii("build");
    if !document.has_section(section) {
        return Err(ConfigError::MissingBuildSection);
    }
    match document.lookup(section, ascii("target")) {
        None => Err(ConfigError::MissingTarget),
        Some(Value::Bare(_)) => Err(ConfigError::TargetNotText),
        Some(Value::List) => Err(ConfigError::TargetNotText),
        Some(Value::Text(target)) => match chip_for_target(target.as_slice()) {
            Some(chip) => Ok(chip),
            None => Err(ConfigError::UnknownTarget),
        },
    }
}

/// Resolves the chip from what reading the build configuration gave: the
/// bytes of the file, or `None` if it could not be read.
pub fn resolve_chip(contents: Option<&[u8]>) -> (chip: Result<Chip, ConfigError>)
    ensures
        chip == resolution(
            match contents {
                Some(text) => Some(text@),
                None => None,
            },
        ),
{
    match contents {
        None => Err(ConfigError::Unreadable),
        Some(text) => match Document::parse(text) {
            Ok(document) => target_chip(&document),
            Err(line) => {
                assert(line < text.len());
                Err(ConfigError::Unparseable { line: line + 1 })
            },
        },
    }
}

/// A configuration resolves to what its lines say: for a document of lines
/// that can be written down, none of them with a line break in it, the chip
/// resolved from its plain written form is the chip of its lines.
pub proof fn law_written_configuration_resolves(lines: Seq<LineView>)
    requires
        lines.len() > 0,
        forall|n: int| 0 <= n < lines.len() ==> writable(#[trigger] lines[n]),
        forall|n: int| 0 <= n < lines.len() ==> !written(#[trigger] lines[n]).contains(NEWLINE),
    ensures
        resolution(Some(written_document(lines))) == chip_of(lines),
{
    law_written_documents_read_back(lines);
}

} // verus!
