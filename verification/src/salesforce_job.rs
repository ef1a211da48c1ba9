//! Configuration of bulk-query jobs on the enterprise platform.

use vstd::prelude::*;

verus! {

/// A processor that creates one bulk query job.
pub struct Processor {
    /// Optional human-readable label for this processor.
    pub label: Option<Vec<u8>>,
    /// Reference to the credential store entry for the platform.
    pub credentials: Vec<u8>,
    /// The query the job runs.
    pub query: Vec<u8>,
    /// What kind of job to create.
    pub operation: Operation,
    /// The output file format of the job.
    pub content_type: ContentType,
    /// The column delimiter of the output file.
    pub column_delimiter: ColumnDelimiter,
    /// The line ending of the output file.
    pub line_ending: LineEnding,
}

/// The kind of bulk job.
#[allow(non_camel_case_types)]
#[derive(Debug, Clone, Copy, PartialEq, Eq, Structural)]
pub enum Operation {
    /// A query job.
    query,
}

impl Default for Operation {
    /// The default job kind: query.
    fn default() -> (r: Operation)
        ensures
            r == Operation::query,
    {
        Operation::query
    }
}

/// The output file format of a bulk job.
#[allow(non_camel_case_types)]
#[derive(Debug, Clone, Copy, PartialEq, Eq, Structural)]
pub enum ContentType {
    /// Comma-separated records.
    CSV,
}

impl Default for ContentType {
    /// The default output format: comma-separated records.
    fn default() -> (r: ContentType)
        ensures
            r == ContentType::CSV,
    {
        ContentType::CSV
    }
}

/// The column delimiter of a bulk job's output file.
#[allow(non_camel_case_types)]
#[derive(Debug, Clone, Copy, PartialEq, Eq, Structural)]
pub enum ColumnDelimiter {
    /// A comma.
    COMMA,
    /// A tab.
    TAB,
    /// A semicolon.
    SEMICOLON,
    /// A pipe.
    PIPE,
    /// A caret.
    CARET,
    /// A backquote.
    BACKQUOTE,
}

impl Default for ColumnDelimiter {
    /// The default column delimiter: a comma.
    fn default() -> (r: ColumnDelimiter)
        ensures
            r == ColumnDelimiter::COMMA,
    {
        ColumnDelimiter::COMMA
    }
}

/// The line ending of a bulk job's output file.
#[allow(non_camel_case_types)]
#[derive(Debug, Clone, Copy, PartialEq, Eq, Structural)]
pub enum LineEnding {
    /// Carriage return and line feed.
    CRLF,
    /// Line feed only.
    LF,
}

impl Default for LineEnding {
    /// The default line ending: carriage return and line feed.
    fn default() -> (r: LineEnding)
        ensures
            r == LineEnding::CRLF,
    {
        LineEnding::CRLF
    }
}

} // verus!
