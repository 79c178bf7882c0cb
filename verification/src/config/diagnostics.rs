//! Diagnostics surfaced while a configuration file is parsed and validated.
//!
//! An error means that the file was rejected outright and the last good
//! configuration stays in effect. A warning means that the file was applied
//! but something in it deserves attention, such as an unrecognized key.
use vstd::prelude::*;

use crate::text::push_decimal;

verus! {

/// Severity of a [`Diagnostic`].
#[derive(Debug, Clone, Copy, PartialEq, Eq, Structural)]
pub enum Severity {
    /// The file was rejected; the previous valid configuration stays active.
    Error,
    /// The file was applied, but this aspect deserves attention.
    Warning,
}

impl Severity {
    /// The word shown for this severity.
    pub open spec fn word(self) -> Seq<char> {
        match self {
            Severity::Error => "error"@,
            Severity::Warning => "warning"@,
        }
    }

    /// The word shown for this severity.
    pub fn label(self) -> (r: &'static str)
        ensures
            r@ == self.word(),
    {
        match self {
            Severity::Error => "error",
            Severity::Warning => "warning",
        }
    }
}

/// One message produced while loading a configuration file.
#[derive(Debug, Clone, PartialEq, Eq)]
pub struct Diagnostic {
    pub severity: Severity,
    pub message: String,
    /// 1-based (line, column) into the source file, when known.
    pub span: Option<(usize, usize)>,
    /// The configuration key concerned, when there is one.
    pub key: Option<String>,
}

/// What a [`Diagnostic`] says.
#[verifier::ext_equal]
pub struct DiagnosticModel {
    pub severity: Severity,
    pub message: Seq<char>,
    pub span: Option<(usize, usize)>,
    pub key: Option<Seq<char>>,
}

/// The text of an optional string.
pub open spec fn text_of(s: Option<String>) -> Option<Seq<char>> {
    match s {
        Some(s) => Some(s@),
        None => None,
    }
}

/// An error that concerns `key`.
pub open spec fn error_on(key: Seq<char>, message: Seq<char>) -> DiagnosticModel {
    DiagnosticModel { severity: Severity::Error, message, span: None, key: Some(key) }
}

/// A warning that concerns `key`.
pub open spec fn warning_on(key: Seq<char>, message: Seq<char>) -> DiagnosticModel {
    DiagnosticModel { severity: Severity::Warning, message, span: None, key: Some(key) }
}

/// What a list of diagnostics says, in order.
pub open spec fn models(list: Seq<Diagnostic>) -> Seq<DiagnosticModel> {
    list.map_values(|d: Diagnostic| d@)
}

/// Appending a diagnostic appends what it says.
pub broadcast proof fn models_push(list: Seq<Diagnostic>, d: Diagnostic)
    ensures
        #[trigger] models(list.push(d)) == models(list).push(d@),
{
    assert(models(list.push(d)) =~= models(list).push(d@));
}

/// Concatenated diagnostics say what both lists say.
pub broadcast proof fn models_concat(a: Seq<Diagnostic>, b: Seq<Diagnostic>)
    ensures
        #[trigger] models(a + b) == models(a) + models(b),
{
    assert(models(a + b) =~= models(a) + models(b));
}

impl View for Diagnostic {
    type V = DiagnosticModel;

    open spec fn view(&self) -> DiagnosticModel {
        DiagnosticModel {
            severity: self.severity,
            message: self.message@,
            span: self.span,
            key: text_of(self.key),
        }
    }
}

impl DiagnosticModel {
    /// The one-line rendering: severity, key, place and message.
    pub open spec fn rendering(self) -> Seq<char> {
        self.severity.word() + self.key_part() + self.span_part() + ": "@ + self.message
    }

    /// The bracketed key, when there is one.
    pub open spec fn key_part(self) -> Seq<char> {
        match self.key {
            Some(key) => " ["@ + key + "]"@,
            None => Seq::empty(),
        }
    }

    /// The place in the file, when it is known.
    pub open spec fn span_part(self) -> Seq<char> {
        match self.span {
            Some((line, col)) => " at "@ + crate::text::decimal(line as nat) + ":"@
                + crate::text::decimal(col as nat),
            None => Seq::empty(),
        }
    }
}

impl Diagnostic {
    /// An error with neither place nor key.
    pub fn error(message: String) -> (r: Self)
        ensures
            r@ == (DiagnosticModel {
                severity: Severity::Error,
                message: message@,
                span: None,
                key: None,
            }),
    {
        Diagnostic { severity: Severity::Error, message, span: None, key: None }
    }

    /// A warning with neither place nor key.
    pub fn warning(message: String) -> (r: Self)
        ensures
            r@ == (DiagnosticModel {
                severity: Severity::Warning,
                message: message@,
                span: None,
                key: None,
            }),
    {
        Diagnostic { severity: Severity::Warning, message, span: None, key: None }
    }

    /// The same diagnostic, placed at the 1-based `line` and `col`.
    pub fn with_span(self, line: usize, col: usize) -> (r: Self)
        ensures
            r@ == (DiagnosticModel { span: Some((line, col)), ..self@ }),
    {
        Diagnostic {
            severity: self.severity,
            message: self.message,
            span: Some((line, col)),
            key: self.key,
        }
    }

    /// The same diagnostic, concerning `key`.
    pub fn with_key(self, key: String) -> (r: Self)
        ensures
            r@ == (DiagnosticModel { key: Some(key@), ..self@ }),
    {
        Diagnostic {
            severity: self.severity,
            message: self.message,
            span: self.span,
            key: Some(key),
        }
    }

    /// The one-line rendering.
    pub fn to_string(&self) -> (r: String)
        ensures
            r@ == self@.rendering(),
    {
        let mut s = self.severity.label().to_owned();
        if let Some(key) = &self.key {
            s.append(" [");
            s.append(key.as_str());
            s.append("]");
        }
        assert(s@ == self@.severity.word() + self@.key_part());
        if let Some((line, col)) = self.span {
            s.append(" at ");
            push_decimal(&mut s, line as u64);
            s.append(":");
            push_decimal(&mut s, col as u64);
        }
        assert(s@ == self@.severity.word() + self@.key_part() + self@.span_part());
        s.append(": ");
        s.append(self.message.as_str());
        s
    }
}

/// A diagnostic is written as its severity, its key in brackets, its place and
/// its message; what it does not have is left out.
pub proof fn diagnostics_are_written_out(
    key: Seq<char>,
    line: usize,
    col: usize,
    message: Seq<char>,
)
    ensures
        (DiagnosticModel { severity: Severity::Error, message, span: None, key: None }).rendering()
            == "error"@ + ": "@ + message,
        (DiagnosticModel {
            severity: Severity::Warning,
            message,
            span: None,
            key: Some(key),
        }).rendering() == "warning"@ + " ["@ + key + "]"@ + ": "@ + message,
        (DiagnosticModel {
            severity: Severity::Error,
            message,
            span: Some((line, col)),
            key: None,
        }).rendering() == "error"@ + " at "@ + crate::text::decimal(line as nat) + ":"@
            + crate::text::decimal(col as nat) + ": "@ + message,
        (DiagnosticModel {
            severity: Severity::Error,
            message,
            span: Some((line, col)),
            key: Some(key),
        }).rendering() == "error"@ + " ["@ + key + "]"@ + " at "@ + crate::text::decimal(
            line as nat,
        ) + ":"@ + crate::text::decimal(col as nat) + ": "@ + message,
{
    let place = " at "@ + crate::text::decimal(line as nat) + ":"@ + crate::text::decimal(
        col as nat,
    );
    assert("error"@ + Seq::<char>::empty() + Seq::<char>::empty() + ": "@ + message =~= "error"@
        + ": "@ + message);
    assert("warning"@ + (" ["@ + key + "]"@) + Seq::<char>::empty() + ": "@ + message
        =~= "warning"@ + " ["@ + key + "]"@ + ": "@ + message);
    assert("error"@ + Seq::<char>::empty() + place + ": "@ + message =~= "error"@ + " at "@
        + crate::text::decimal(line as nat) + ":"@ + crate::text::decimal(col as nat) + ": "@
        + message);
    assert("error"@ + (" ["@ + key + "]"@) + place + ": "@ + message =~= "error"@ + " ["@ + key
        + "]"@ + " at "@ + crate::text::decimal(line as nat) + ":"@ + crate::text::decimal(
        col as nat,
    ) + ": "@ + message);
}

} // verus!
