//! Errors of the transpiler and their rendering as reports.
use crate::text::occurs_at;
use vstd::prelude::*;

verus! {

/// A half-open range `start..end` of character positions in a source text.
#[derive(Clone, Copy, Debug, PartialEq, Eq)]
pub struct Span {
    pub start: usize,
    pub end: usize,
}

/// What can go wrong while transpiling.
#[derive(Debug)]
pub enum TranspileError {
    /// A located problem in a source file.
    Diagnostic { message: String, span: Span },
    /// The project has no `src` directory.
    MissingSourceDirectory(String),
    /// The `src` directory holds no `.zo` file.
    NoSources(String),
    /// The text scanner reached the end of the input inside the given delimiter.
    UnclosedDelimiter(char),
}

/// Builds an `ariadne::Report` of kind error located at `start..end`, with `message` as its
/// title and as the text of one red label on the same span, writes it over
/// `ariadne::Source::from(source)` into a byte buffer and returns the buffer read as UTF-8
/// (lossily), or `None` when `Report::write` returns an error. What the report looks like is
/// not claimed: whether it is coloured depends on the machine and on where the output goes.
/// Two things are claimed: `Label::new` does not panic on a span that is not backwards, which
/// is the one panic its documentation names; and a written report holds the message as it is,
/// since `Report::write` always starts with the header line `<kind>: <message>`, whose
/// message is not coloured.
#[verifier::external_body]
fn ariadne_report(
    file_name: &str,
    source: &str,
    message: &str,
    start: usize,
    end: usize,
) -> (rendered: Option<String>)
    requires
        start <= end,
    ensures
        rendered matches Some(text) ==> contains_text(text@, message@),
{
    let mut output = Vec::new();
    let report = ariadne::Report::build(ariadne::ReportKind::Error, (file_name, start..end))
        .with_message(message)
        .with_label(
            ariadne::Label::new((file_name, start..end)).with_message(message).with_color(
                ariadne::Color::Red,
            ),
        )
        .finish();
    match report.write((file_name, ariadne::Source::from(source)), &mut output) {
        Ok(()) => Some(String::from_utf8_lossy(&output).into_owned()),
        Err(_) => None,
    }
}

/// `needle` occurs somewhere in `s`.
pub open spec fn contains_text(s: Seq<char>, needle: Seq<char>) -> bool {
    exists|j: int| occurs_at(s, j, needle)
}

/// The one-line text of an error, as its `Display` would print it.
pub open spec fn error_text(error: TranspileError) -> Seq<char> {
    match error {
        TranspileError::Diagnostic { message, .. } => message@,
        TranspileError::MissingSourceDirectory(path) => "missing src directory at "@ + path@,
        TranspileError::NoSources(path) => "no .zo source files were found in "@ + path@,
        TranspileError::UnclosedDelimiter(c) => "unclosed delimiter `"@ + seq![c] + "`"@,
    }
}

impl TranspileError {
    /// A diagnostic with the given message at the given span.
    pub fn diagnostic(message: String, span: Span) -> (error: Self)
        ensures
            error == (TranspileError::Diagnostic { message, span }),
    {
        TranspileError::Diagnostic { message, span }
    }

    /// The message of the error, as its `Display` would print it.
    pub fn message_text(&self) -> (text: String)
        ensures
            text@ == error_text(*self),
    {
        match self {
            TranspileError::Diagnostic { message, .. } => message.clone(),
            TranspileError::MissingSourceDirectory(path) => {
                let mut text = String::from_str("missing src directory at ");
                text.append(path.as_str());
                text
            },
            TranspileError::NoSources(path) => {
                let mut text = String::from_str("no .zo source files were found in ");
                text.append(path.as_str());
                text
            },
            TranspileError::UnclosedDelimiter(c) => {
                let mut text = String::from_str("unclosed delimiter `");
                text.push(*c);
                text.append("`");
                text
            },
        }
    }

    /// The error as a user sees it: a diagnostic becomes an annotated report of the source
    /// file written by `ariadne` (or its bare message when the report cannot be written), any
    /// other error its one-line message.
    pub fn render(&self, file_name: &str, source: &str) -> (text: String)
        requires
            self matches TranspileError::Diagnostic { span, .. } ==> span.start <= span.end,
        ensures
            !(*self is Diagnostic) ==> text@ == error_text(*self),
            *self is Diagnostic ==> contains_text(text@, self->message@),
    {
        match self {
            TranspileError::Diagnostic { message, span } => {
                match ariadne_report(file_name, source, message.as_str(), span.start, span.end) {
                    Some(text) => text,
                    None => {
                        let text = message.clone();
                        proof {
                            assert(occurs_at(text@, 0, message@)) by {
                                assert(text@.subrange(0, message@.len() as int) =~= message@);
                            }
                        }
                        text
                    },
                }
            },
            _ => self.message_text(),
        }
    }
}

} // verus!
