//! Errors of palette loading and palette selection.

use vstd::prelude::*;

verus! {

/// Errors that can occur when loading palettes.
#[derive(Debug, Clone, PartialEq, Eq)]
pub enum PaletteError {
    /// A palette file could not be read.
    IoError(String),
    /// A palette file holds a bad line, or a palette index is out of range.
    ParseError(String),
    /// A palette file holds no color at all.
    EmptyPalette,
    /// A hex color could not be parsed.
    InvalidHexColor(String),
}

/// A [`PaletteError`] with its texts as character sequences.
pub enum PaletteErrorView {
    IoError(Seq<char>),
    ParseError(Seq<char>),
    EmptyPalette,
    InvalidHexColor(Seq<char>),
}

impl View for PaletteError {
    type V = PaletteErrorView;

    open spec fn view(&self) -> PaletteErrorView {
        match self {
            PaletteError::IoError(m) => PaletteErrorView::IoError(m@),
            PaletteError::ParseError(m) => PaletteErrorView::ParseError(m@),
            PaletteError::EmptyPalette => PaletteErrorView::EmptyPalette,
            PaletteError::InvalidHexColor(m) => PaletteErrorView::InvalidHexColor(m@),
        }
    }
}

/// The human-readable text of an error, as the error's display form reads.
pub open spec fn error_message(e: PaletteErrorView) -> Seq<char> {
    match e {
        PaletteErrorView::IoError(m) => "IO Error: "@ + m,
        PaletteErrorView::ParseError(m) => "Parse Error: "@ + m,
        PaletteErrorView::EmptyPalette => "Empty palette"@,
        PaletteErrorView::InvalidHexColor(m) => "Invalid hex color: "@ + m,
    }
}

impl PaletteError {
    /// The human-readable text of this error (its display form).
    pub fn message(&self) -> (s: String)
        ensures
            s@ == error_message(self@),
    {
        match self {
            PaletteError::IoError(m) => {
                let mut s = String::from_str("IO Error: ");
                s.append(m.as_str());
                s
            },
            PaletteError::ParseError(m) => {
                let mut s = String::from_str("Parse Error: ");
                s.append(m.as_str());
                s
            },
            PaletteError::EmptyPalette => String::from_str("Empty palette"),
            PaletteError::InvalidHexColor(m) => {
                let mut s = String::from_str("Invalid hex color: ");
                s.append(m.as_str());
                s
            },
        }
    }
}

} // verus!
