//! Compiler diagnostics: errors, warnings and suggestions with a position.

use vstd::prelude::*;
use crate::text::{concat, u64_to_text, decimal};

verus! {

/// How serious a diagnostic is.
#[derive(Debug, Clone, Copy, PartialEq, Eq, Structural)]
pub enum DiagnosticLevel {
    Error,
    Warning,
    Suggestion,
}

/// A message about the source, optionally with a position and a fix.
#[derive(Debug, Clone)]
pub struct Diagnostic {
    pub level: DiagnosticLevel,
    pub message: String,
    pub line: Option<usize>,
    pub column: Option<usize>,
    pub suggestion: Option<String>,
}

/// The position text of a diagnostic: ` at line <l>, column <c>` when both
/// are known, empty otherwise.
pub open spec fn location_text(line: Option<usize>, column: Option<usize>) -> Seq<char> {
    match (line, column) {
        (Some(l), Some(c)) => " at line "@ + decimal(l as nat) + ", column "@ + decimal(c as nat),
        _ => Seq::empty(),
    }
}

impl Diagnostic {
    /// An error without position.
    pub fn error(msg: &str) -> (d: Self)
        ensures
            d.level == DiagnosticLevel::Error,
            d.message@ == msg@,
            d.line is None,
            d.column is None,
            d.suggestion is None,
    {
        Diagnostic { level: DiagnosticLevel::Error, message: msg.to_owned(), line: None, column: None, suggestion: None }
    }

    /// A warning without position.
    pub fn warning(msg: &str) -> (d: Self)
        ensures
            d.level == DiagnosticLevel::Warning,
            d.message@ == msg@,
            d.line is None,
            d.column is None,
            d.suggestion is None,
    {
        Diagnostic { level: DiagnosticLevel::Warning, message: msg.to_owned(), line: None, column: None, suggestion: None }
    }

    /// A suggestion, with its fix, without position.
    pub fn suggestion(msg: &str, suggestion: &str) -> (d: Self)
        ensures
            d.level == DiagnosticLevel::Suggestion,
            d.message@ == msg@,
            d.line is None,
            d.column is None,
            d.suggestion matches Some(s) && s@ == suggestion@,
    {
        Diagnostic {
            level: DiagnosticLevel::Suggestion,
            message: msg.to_owned(),
            line: None,
            column: None,
            suggestion: Some(suggestion.to_owned()),
        }
    }

    /// The same diagnostic at line `line`, column `col`.
    pub fn at(self, line: usize, col: usize) -> (d: Self)
        ensures
            d.level == self.level,
            d.message == self.message,
            d.suggestion == self.suggestion,
            d.line == Some(line),
            d.column == Some(col),
    {
        let mut d = self;
        d.line = Some(line);
        d.column = Some(col);
        d
    }

    /// The position text shown after the level.
    pub fn location_suffix(&self) -> (s: String)
        ensures
            s@ == location_text(self.line, self.column),
    {
        match (self.line, self.column) {
            (Some(l), Some(c)) => {
                let a = concat(" at line ", u64_to_text(l as u64).as_str());
                let b = concat(a.as_str(), ", column ");
                concat(b.as_str(), u64_to_text(c as u64).as_str())
            },
            _ => String::new(),
        }
    }
}

} // verus!
