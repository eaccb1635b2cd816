//! Positions, ranges, locations, diagnostics and edits.

use crate::types::Id;
use std::collections::HashMap;
use vstd::prelude::*;

verus! {

/// A zero-based line and character offset in a document.
#[derive(Debug, Clone, Copy, PartialEq, Eq, PartialOrd, Ord, Hash, Structural)]
pub struct Position {
    pub line: u32,
    pub character: u32,
}

/// `a` comes no later than `b`: by line, then by character.
pub open spec fn position_le(a: Position, b: Position) -> bool {
    a.line < b.line || (a.line == b.line && a.character <= b.character)
}

/// `a` comes strictly before `b`.
pub open spec fn position_lt(a: Position, b: Position) -> bool {
    a.line < b.line || (a.line == b.line && a.character < b.character)
}

impl Position {
    pub fn new(line: u32, character: u32) -> (r: Self)
        ensures
            r.line == line,
            r.character == character,
    {
        Position { line, character }
    }

    /// The start of a document.
    pub fn start() -> (r: Self)
        ensures
            r.line == 0,
            r.character == 0,
    {
        Self::new(0, 0)
    }
}

/// A range of a document, from `start` up to but not including `end`.
#[derive(Debug, Clone, Copy, PartialEq, Eq, Hash, Structural)]
pub struct Range {
    pub start: Position,
    pub end: Position,
}

impl Range {
    pub fn new(start: Position, end: Position) -> (r: Self)
        ensures
            r.start == start,
            r.end == end,
    {
        Range { start, end }
    }

    pub fn from_coords(start_line: u32, start_char: u32, end_line: u32, end_char: u32) -> (r: Self)
        ensures
            r.start == (Position { line: start_line, character: start_char }),
            r.end == (Position { line: end_line, character: end_char }),
    {
        Self::new(Position::new(start_line, start_char), Position::new(end_line, end_char))
    }

    /// The range of the one character at `position`.
    pub fn single_char(position: Position) -> (r: Self)
        requires
            position.character < u32::MAX,
        ensures
            r.start == position,
            r.end == (Position { line: position.line, character: (position.character + 1) as u32 }),
    {
        Self::new(position, Position::new(position.line, position.character + 1))
    }

    /// Whether `position` lies in the range; the end is excluded.
    pub fn contains(&self, position: Position) -> (r: bool)
        ensures
            r == (position_le(self.start, position) && position_lt(position, self.end)),
    {
        let after_start = position.line > self.start.line || (position.line == self.start.line
            && position.character >= self.start.character);
        let before_end = position.line < self.end.line || (position.line == self.end.line
            && position.character < self.end.character);
        after_start && before_end
    }

    /// Whether the range covers nothing: its start is its end.
    pub fn is_empty(&self) -> (r: bool)
        ensures
            r == (self.start == self.end),
    {
        self.start == self.end
    }
}

/// A range inside a resource.
#[derive(Debug, Clone, PartialEq, Eq, Hash)]
pub struct Location {
    pub uri: String,
    pub range: Range,
}

impl Location {
    pub fn new(uri: &str, range: Range) -> (r: Self)
        ensures
            r.uri@ == uri@,
            r.range == range,
    {
        Location { uri: uri.to_owned(), range }
    }
}

/// A link from a source range to a target location.
#[derive(Debug, Clone, PartialEq, Eq, Hash)]
pub struct LocationLink {
    pub origin_selection_range: Option<Range>,
    pub target_uri: String,
    pub target_range: Range,
    pub target_selection_range: Range,
}

/// A problem found in a document, such as a compiler error or warning.
#[derive(Debug, Clone, PartialEq)]
pub struct Diagnostic {
    pub range: Range,
    pub severity: Option<DiagnosticSeverity>,
    pub code: Option<DiagnosticCode>,
    pub code_description: Option<CodeDescription>,
    pub source: Option<String>,
    pub message: String,
    pub tags: Option<Vec<DiagnosticTag>>,
    pub related_information: Option<Vec<DiagnosticRelatedInformation>>,
    pub data: Option<serde_json::Value>,
}

/// How severe a diagnostic is; on the wire a number from 1 to 4.
#[derive(Debug, Clone, Copy, PartialEq, Eq, Hash, Structural)]
pub enum DiagnosticSeverity {
    Error,
    Warning,
    Information,
    Hint,
}

pub open spec fn severity_code(s: DiagnosticSeverity) -> u8 {
    match s {
        DiagnosticSeverity::Error => 1,
        DiagnosticSeverity::Warning => 2,
        DiagnosticSeverity::Information => 3,
        DiagnosticSeverity::Hint => 4,
    }
}

impl DiagnosticSeverity {
    /// The number that stands for this severity on the wire.
    pub fn value(&self) -> (r: u8)
        ensures
            r == severity_code(*self),
    {
        match self {
            DiagnosticSeverity::Error => 1,
            DiagnosticSeverity::Warning => 2,
            DiagnosticSeverity::Information => 3,
            DiagnosticSeverity::Hint => 4,
        }
    }

    /// The severity a wire number stands for; numbers outside 1 to 4 stand for
    /// none.
    pub fn from_value(value: u8) -> (r: Option<Self>)
        ensures
            match r {
                Some(s) => severity_code(s) == value,
                None => value < 1 || value > 4,
            },
    {
        match value {
            1 => Some(DiagnosticSeverity::Error),
            2 => Some(DiagnosticSeverity::Warning),
            3 => Some(DiagnosticSeverity::Information),
            4 => Some(DiagnosticSeverity::Hint),
            _ => None,
        }
    }
}

/// A diagnostic's code: a number or a string.
#[derive(Debug, Clone, PartialEq, Eq, Hash)]
pub enum DiagnosticCode {
    Number(i32),
    String(String),
}

/// Where to read more about an error code.
#[derive(Debug, Clone, PartialEq, Eq, Hash)]
pub struct CodeDescription {
    pub href: String,
}

/// Extra facts about a diagnostic; on the wire a number, 1 or 2.
#[derive(Debug, Clone, Copy, PartialEq, Eq, Hash, Structural)]
pub enum DiagnosticTag {
    Unnecessary,
    Deprecated,
}

pub open spec fn tag_code(t: DiagnosticTag) -> u8 {
    match t {
        DiagnosticTag::Unnecessary => 1,
        DiagnosticTag::Deprecated => 2,
    }
}

impl DiagnosticTag {
    /// The number that stands for this tag on the wire.
    pub fn value(&self) -> (r: u8)
        ensures
            r == tag_code(*self),
    {
        match self {
            DiagnosticTag::Unnecessary => 1,
            DiagnosticTag::Deprecated => 2,
        }
    }

    /// The tag a wire number stands for, if any.
    pub fn from_value(value: u8) -> (r: Option<Self>)
        ensures
            match r {
                Some(t) => tag_code(t) == value,
                None => value != 1 && value != 2,
            },
    {
        match value {
            1 => Some(DiagnosticTag::Unnecessary),
            2 => Some(DiagnosticTag::Deprecated),
            _ => None,
        }
    }
}

/// A message and location related to a diagnostic.
#[derive(Debug, Clone, PartialEq, Eq, Hash)]
pub struct DiagnosticRelatedInformation {
    pub location: Location,
    pub message: String,
}

/// A command the client can run.
#[derive(Debug, Clone, PartialEq)]
pub struct Command {
    pub title: String,
    pub command: String,
    pub arguments: Option<Vec<serde_json::Value>>,
}

/// A replacement of a range of a document by new text.
#[derive(Debug, Clone, PartialEq, Eq, Hash)]
pub struct TextEdit {
    pub range: Range,
    pub new_text: String,
}

impl TextEdit {
    pub fn new(range: Range, new_text: &str) -> (r: Self)
        ensures
            r.range == range,
            r.new_text@ == new_text@,
    {
        TextEdit { range, new_text: new_text.to_owned() }
    }

    /// Inserts `text` at `position`: the range is empty.
    pub fn insert(position: Position, text: &str) -> (r: Self)
        ensures
            r.range == (Range { start: position, end: position }),
            r.new_text@ == text@,
    {
        Self::new(Range::new(position, position), text)
    }

    /// Deletes `range`: the new text is empty.
    pub fn delete(range: Range) -> (r: Self)
        ensures
            r.range == range,
            r.new_text@ == Seq::<char>::empty(),
    {
        let r = Self::new(range, "");
        proof {
            reveal_strlit("");
        }
        r
    }

    pub fn replace(range: Range, new_text: &str) -> (r: Self)
        ensures
            r.range == range,
            r.new_text@ == new_text@,
    {
        Self::new(range, new_text)
    }
}

/// A description of a change, shown to the user.
#[derive(Debug, Clone, PartialEq, Eq, Hash)]
pub struct ChangeAnnotation {
    pub label: String,
    pub needs_confirmation: Option<bool>,
    pub description: Option<String>,
}

/// A text edit with a change annotation.
#[derive(Debug, Clone, PartialEq, Eq, Hash)]
pub struct AnnotatedTextEdit {
    pub range: Range,
    pub new_text: String,
    pub annotation_id: String,
}

/// Edits of one version of one document.
#[derive(Debug, Clone, PartialEq, Eq, Hash)]
pub struct TextDocumentEdit {
    pub text_document: OptionalVersionedTextDocumentIdentifier,
    pub edits: Vec<OneOf<TextEdit, AnnotatedTextEdit>>,
}

/// A file operation.
#[derive(Debug, Clone, PartialEq, Eq, Hash)]
pub enum ResourceOperation {
    Create(CreateFile),
    Rename(RenameFile),
    Delete(DeleteFile),
}

#[derive(Debug, Clone, PartialEq, Eq, Hash)]
pub struct CreateFile {
    pub kind: String,
    pub uri: String,
    pub options: Option<CreateFileOptions>,
    pub annotation_id: Option<String>,
}

#[derive(Debug, Clone, PartialEq, Eq, Hash)]
pub struct CreateFileOptions {
    pub overwrite: Option<bool>,
    pub ignore_if_exists: Option<bool>,
}

#[derive(Debug, Clone, PartialEq, Eq, Hash)]
pub struct RenameFile {
    pub kind: String,
    pub old_uri: String,
    pub new_uri: String,
    pub options: Option<RenameFileOptions>,
    pub annotation_id: Option<String>,
}

#[derive(Debug, Clone, PartialEq, Eq, Hash)]
pub struct RenameFileOptions {
    pub overwrite: Option<bool>,
    pub ignore_if_exists: Option<bool>,
}

#[derive(Debug, Clone, PartialEq, Eq, Hash)]
pub struct DeleteFile {
    pub kind: String,
    pub uri: String,
    pub options: Option<DeleteFileOptions>,
    pub annotation_id: Option<String>,
}

#[derive(Debug, Clone, PartialEq, Eq, Hash)]
pub struct DeleteFileOptions {
    pub recursive: Option<bool>,
    pub ignore_if_not_exists: Option<bool>,
}

/// Changes to many resources of a workspace.
#[derive(Debug, Clone, PartialEq)]
pub struct WorkspaceEdit {
    pub changes: Option<HashMap<String, Vec<TextEdit>>>,
    pub document_changes: Option<Vec<DocumentChange>>,
    pub change_annotations: Option<HashMap<String, ChangeAnnotation>>,
}

/// One change of a workspace edit.
#[derive(Debug, Clone, PartialEq)]
pub enum DocumentChange {
    TextDocumentEdit(TextDocumentEdit),
    ResourceOperation(ResourceOperation),
}

/// A document, by its URI.
#[derive(Debug, Clone, PartialEq, Eq, Hash)]
pub struct TextDocumentIdentifier {
    pub uri: String,
}

impl TextDocumentIdentifier {
    pub fn new(uri: &str) -> (r: Self)
        ensures
            r.uri@ == uri@,
    {
        TextDocumentIdentifier { uri: uri.to_owned() }
    }
}

/// A document at a given version.
#[derive(Debug, Clone, PartialEq, Eq, Hash)]
pub struct VersionedTextDocumentIdentifier {
    pub uri: String,
    pub version: i32,
}

impl VersionedTextDocumentIdentifier {
    pub fn new(uri: &str, version: i32) -> (r: Self)
        ensures
            r.uri@ == uri@,
            r.version == version,
    {
        VersionedTextDocumentIdentifier { uri: uri.to_owned(), version }
    }
}

/// A document at a version that may be unknown.
#[derive(Debug, Clone, PartialEq, Eq, Hash)]
pub struct OptionalVersionedTextDocumentIdentifier {
    pub uri: String,
    pub version: Option<i32>,
}

impl OptionalVersionedTextDocumentIdentifier {
    pub fn new(uri: &str, version: Option<i32>) -> (r: Self)
        ensures
            r.uri@ == uri@,
            r.version == version,
    {
        OptionalVersionedTextDocumentIdentifier { uri: uri.to_owned(), version }
    }
}

/// One of two kinds of value.
#[derive(Debug, Clone, PartialEq, Eq, Hash)]
pub enum OneOf<A, B> {
    Left(A),
    Right(B),
}

impl<A, B> OneOf<A, B> {
    pub fn is_left(&self) -> (r: bool)
        ensures
            r == self is Left,
    {
        matches!(self, OneOf::Left(_))
    }

    pub fn is_right(&self) -> (r: bool)
        ensures
            r == self is Right,
    {
        matches!(self, OneOf::Right(_))
    }

    pub fn left(self) -> (r: Option<A>)
        ensures
            match self {
                OneOf::Left(a) => r == Some(a),
                OneOf::Right(_) => r is None,
            },
    {
        match self {
            OneOf::Left(a) => Some(a),
            OneOf::Right(_) => None,
        }
    }

    pub fn right(self) -> (r: Option<B>)
        ensures
            match self {
                OneOf::Right(b) => r == Some(b),
                OneOf::Left(_) => r is None,
            },
    {
        match self {
            OneOf::Right(b) => Some(b),
            OneOf::Left(_) => None,
        }
    }
}

/// A token that ties progress reports to an operation.
pub type ProgressToken = Id;

/// A URI, as text.
pub type Uri = String;

/// The URI of a document, as text.
pub type DocumentUri = String;

/// The identifier of a change annotation.
pub type ChangeAnnotationIdentifier = String;

} // verus!
