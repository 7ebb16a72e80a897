//! The document model: a parsed export file is a `BooxFile`, holding the
//! book's `Metadata` and an ordered sequence of `Section`s, each a
//! `Highlight` or a chapter heading. Spec-level mirrors of these types,
//! over `Seq<char>`, give the parsers and the renderer their contracts.

use vstd::prelude::*;

verus! {

/// The ways a parse can fail.
#[derive(Debug, Clone, Copy, PartialEq, Eq, Structural)]
pub enum ErrorKind {
    /// The input ended before a header token was found.
    UnexpectedEnd,
    /// A timestamp field had the wrong width or an invalid calendar value.
    InvalidTimestamp,
    /// A record marker was missing or a record field was malformed.
    MalformedRecord,
    /// None of the candidate markers of a multi-marker cut was present.
    NoMarkerFound,
    /// Unparsed bytes remained after the last successful record.
    TrailingInput,
}

/// A parse failure: what went wrong and the character position at which
/// it happened.
#[derive(Debug, Clone, Copy, PartialEq, Eq, Structural)]
pub struct ParseError {
    pub kind: ErrorKind,
    pub pos: usize,
}

/// Error value for a header token missing before the input ends.
pub open spec fn unexpected_end(pos: int) -> ParseError {
    ParseError { kind: ErrorKind::UnexpectedEnd, pos: pos as usize }
}

/// Error value for a missing marker or malformed field in a record.
pub open spec fn malformed(pos: int) -> ParseError {
    ParseError { kind: ErrorKind::MalformedRecord, pos: pos as usize }
}

/// Error value for a timestamp that does not fit the grammar.
pub open spec fn invalid_timestamp(pos: int) -> ParseError {
    ParseError { kind: ErrorKind::InvalidTimestamp, pos: pos as usize }
}

/// Error value for a multi-marker cut with every candidate absent.
pub open spec fn no_marker_found(pos: int) -> ParseError {
    ParseError { kind: ErrorKind::NoMarkerFound, pos: pos as usize }
}

/// Error value for unparsed input after the last record.
pub open spec fn trailing_input(pos: int) -> ParseError {
    ParseError { kind: ErrorKind::TrailingInput, pos: pos as usize }
}

/// A calendar date and time at minute resolution; the seconds of a
/// capture timestamp are always zero.
#[derive(Debug, Clone, Copy, PartialEq, Eq, Structural)]
pub struct Timestamp {
    pub year: u32,
    pub month: u32,
    pub day: u32,
    pub hour: u32,
    pub minute: u32,
}

/// Whether `y` is a leap year of the proleptic Gregorian calendar.
pub open spec fn is_leap_year(y: int) -> bool {
    y % 4 == 0 && (y % 100 != 0 || y % 400 == 0)
}

/// The number of days of month `m` in year `y`.
pub open spec fn days_in_month(y: int, m: int) -> int {
    if m == 2 {
        if is_leap_year(y) {
            29
        } else {
            28
        }
    } else if m == 4 || m == 6 || m == 9 || m == 11 {
        30
    } else {
        31
    }
}

impl Timestamp {
    /// Whether the fields form a valid calendar date and time.
    pub open spec fn wf(self) -> bool {
        &&& self.year <= 9999
        &&& 1 <= self.month <= 12
        &&& 1 <= self.day <= days_in_month(self.year as int, self.month as int)
        &&& self.hour <= 23
        &&& self.minute <= 59
    }
}

/// The book's title and author, trimmed of surrounding white space.
#[derive(Debug, PartialEq, Eq)]
pub struct Metadata {
    pub title: String,
    pub author: String,
}

/// A quoted passage with its capture timestamp, page number, and an
/// optional reader's note.
#[derive(Debug, PartialEq, Eq)]
pub struct Highlight {
    pub timestamp: Timestamp,
    pub page: u32,
    pub highlight: String,
    pub note: Option<String>,
}

/// One section of the document: a highlight or a chapter heading.
#[derive(Debug, PartialEq, Eq)]
pub enum Section {
    HL(Highlight),
    Chapter(String),
}

/// A fully parsed export file: metadata plus the sections in source order.
#[derive(Debug, PartialEq, Eq)]
pub struct BooxFile {
    pub metadata: Metadata,
    pub sections: Vec<Section>,
}

/// Spec-level metadata: the title and author as character sequences.
pub struct SpecMetadata {
    pub title: Seq<char>,
    pub author: Seq<char>,
}

/// Spec-level highlight: text fields as character sequences.
pub struct SpecHighlight {
    pub timestamp: Timestamp,
    pub page: u32,
    pub highlight: Seq<char>,
    pub note: Option<Seq<char>>,
}

/// Spec-level section.
pub enum SpecSection {
    HL(SpecHighlight),
    Chapter(Seq<char>),
}

/// Spec-level document.
pub struct SpecBooxFile {
    pub metadata: SpecMetadata,
    pub sections: Seq<SpecSection>,
}

impl View for Metadata {
    type V = SpecMetadata;

    open spec fn view(&self) -> SpecMetadata {
        SpecMetadata { title: self.title@, author: self.author@ }
    }
}

impl View for Highlight {
    type V = SpecHighlight;

    open spec fn view(&self) -> SpecHighlight {
        SpecHighlight {
            timestamp: self.timestamp,
            page: self.page,
            highlight: self.highlight@,
            note: match self.note {
                Some(ref n) => Some(n@),
                None => None,
            },
        }
    }
}

impl View for Section {
    type V = SpecSection;

    open spec fn view(&self) -> SpecSection {
        match self {
            Section::HL(h) => SpecSection::HL(h@),
            Section::Chapter(c) => SpecSection::Chapter(c@),
        }
    }
}

/// The views of the elements of a sequence of sections.
pub open spec fn sections_view(ss: Seq<Section>) -> Seq<SpecSection> {
    Seq::new(ss.len(), |i: int| ss[i]@)
}

impl View for BooxFile {
    type V = SpecBooxFile;

    open spec fn view(&self) -> SpecBooxFile {
        SpecBooxFile { metadata: self.metadata@, sections: sections_view(self.sections@) }
    }
}

} // verus!
