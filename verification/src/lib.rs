//! Data formats for a modpack toolchain.
//!
//! A `Pack` is the human-authored definition of a modpack: metadata, a game
//! description, named mod sources, and per-file version-selection rules. It is
//! read from a TOML-like text document by [`pack::Pack::parse`].
//!
//! A `ManifestJson` is the installer-facing, fully resolved file list. It is
//! written to a JSON document by [`manifest::ManifestJson::render`].
//!
//! Both directions are specified exactly: parsing is proved equal to a
//! spec-level parser of the document grammar, and rendering is proved equal to
//! a spec-level rendering function.
use vstd::prelude::*;

pub mod laws;
pub mod manifest;
pub mod pack;
pub mod roundtrip;
pub mod semver_support;
pub mod text;
pub mod vreq;

pub use manifest::ManifestEnv;
pub use manifest::ManifestFile;
pub use manifest::ManifestHashes;
pub use manifest::ManifestJson;
pub use pack::Pack;
pub use pack::PackChannel;
pub use pack::PackEnv;
pub use pack::PackFile;
pub use pack::PackGame;
pub use pack::PackMetadata;
pub use pack::PackSource;
pub use pack::PackVersion;
pub use vreq::VersionConstraint;

verus! {

/// Which structural rule a pack document broke.
///
/// Structural errors cover every way a document can fail to match the expected
/// shape other than an unknown tag of a tagged union (`UnknownVariant`) and an
/// invalid semantic-version range (`ConstraintSyntax`).
#[derive(Clone, Copy, Debug, PartialEq, Eq, Structural)]
pub enum StructuralKind {
    /// A line is not a blank line, a table header, or a `key = value` pair.
    MalformedLine,
    /// A `key = value` pair stands before the first table header.
    TopLevelKey,
    /// A table that may occur only once occurs again.
    DuplicateTable,
    /// A key occurs twice within one table.
    DuplicateField,
    /// A required field is absent.
    MissingField,
    /// A field is present but its value has the wrong shape.
    BadValue,
    /// The game table satisfies more than one game shape.
    AmbiguousGame,
    /// A `[files.version]` table stands before any `[[files]]` entry.
    OrphanTable,
    /// A single table is written as an array of tables, or the reverse.
    WrongTableKind,
}

/// An error returned by the load path (`Pack::parse`, `VersionReq::parse`).
///
/// `line` is the 1-based line number of the offending text; it is 0 where no
/// document position applies (a missing table, or a constraint parsed outside
/// a document).
#[derive(Clone, Debug, PartialEq)]
pub enum AthenaError {
    /// The document does not match the expected shape.
    Structure { line: usize, kind: StructuralKind, name: String },
    /// A tagged union's discriminant is not one of the recognized tags.
    UnknownVariant { line: usize, tag: String },
    /// A semantic-version range expression failed to parse; `text` is the
    /// offending expression and `detail` the parser's diagnostic.
    ConstraintSyntax { line: usize, text: String, detail: String },
}

/// Mathematical model of an [`AthenaError`].
pub enum ErrorView {
    Structure { line: int, kind: StructuralKind, name: Seq<char> },
    UnknownVariant { line: int, tag: Seq<char> },
    ConstraintSyntax { line: int, text: Seq<char>, detail: Seq<char> },
}

impl View for AthenaError {
    type V = ErrorView;

    open spec fn view(&self) -> ErrorView {
        match self {
            AthenaError::Structure { line, kind, name } => ErrorView::Structure {
                line: *line as int,
                kind: *kind,
                name: name@,
            },
            AthenaError::UnknownVariant { line, tag } => ErrorView::UnknownVariant {
                line: *line as int,
                tag: tag@,
            },
            AthenaError::ConstraintSyntax { line, text, detail } => ErrorView::ConstraintSyntax {
                line: *line as int,
                text: text@,
                detail: detail@,
            },
        }
    }
}

} // verus!
