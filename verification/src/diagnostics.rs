//! Diagnostics reported by the front end: severity, message and source ranges.
use vstd::prelude::*;

verus! {

/// A half-open range of byte offsets into the source text.
#[derive(Debug, Clone, Copy, PartialEq, Eq, Structural)]
pub struct TextRange {
    pub start: u32,
    pub end: u32,
}

impl TextRange {
    /// The range `start..end`.
    pub fn new(start: u32, end: u32) -> (r: TextRange)
        requires
            start <= end,
        ensures
            r.start == start,
            r.end == end,
    {
        TextRange { start, end }
    }

    /// The number of bytes the range covers.
    pub fn len(&self) -> (r: u32)
        requires
            self.start <= self.end,
        ensures
            r == self.end - self.start,
    {
        self.end - self.start
    }
}

#[derive(Debug, Clone, Copy, PartialEq, Eq, Hash, Structural)]
pub enum Severity {
    Error,
    Warning,
    Note,
}

#[derive(Debug, Clone)]
pub struct DiagnosticLabel {
    pub message: String,
    pub range: TextRange,
}

#[derive(Debug, Clone)]
pub struct Diagnostic {
    pub severity: Severity,
    pub code: Option<String>,
    pub message: String,
    pub primary_label: DiagnosticLabel,
    pub secondary_labels: Vec<DiagnosticLabel>,
    pub help: Option<String>,
}

impl Diagnostic {
    /// An error with an unlabelled primary range.
    pub fn error(message: String, range: TextRange) -> (r: Diagnostic)
        ensures
            r.severity == Severity::Error,
            r.code is None,
            r.message@ == message@,
            r.primary_label.message@ == Seq::<char>::empty(),
            r.primary_label.range == range,
            r.secondary_labels@.len() == 0,
            r.help is None,
    {
        Diagnostic {
            severity: Severity::Error,
            code: None,
            message,
            primary_label: DiagnosticLabel { message: String::new(), range },
            secondary_labels: Vec::new(),
            help: None,
        }
    }

    /// A warning with an unlabelled primary range.
    pub fn warning(message: String, range: TextRange) -> (r: Diagnostic)
        ensures
            r.severity == Severity::Warning,
            r.code is None,
            r.message@ == message@,
            r.primary_label.message@ == Seq::<char>::empty(),
            r.primary_label.range == range,
            r.secondary_labels@.len() == 0,
            r.help is None,
    {
        Diagnostic {
            severity: Severity::Warning,
            code: None,
            message,
            primary_label: DiagnosticLabel { message: String::new(), range },
            secondary_labels: Vec::new(),
            help: None,
        }
    }

    pub fn with_code(self, code: String) -> (r: Diagnostic)
        ensures
            r.severity == self.severity,
            r.code == Some(code),
            r.message == self.message,
            r.primary_label == self.primary_label,
            r.secondary_labels == self.secondary_labels,
            r.help == self.help,
    {
        Diagnostic { code: Some(code), ..self }
    }

    /// Adds a labelled secondary range after the existing ones.
    pub fn with_secondary(self, message: String, range: TextRange) -> (r: Diagnostic)
        ensures
            r.severity == self.severity,
            r.code == self.code,
            r.message == self.message,
            r.primary_label == self.primary_label,
            r.secondary_labels@ == self.secondary_labels@.push(DiagnosticLabel { message, range }),
            r.help == self.help,
    {
        let mut d = self;
        d.secondary_labels.push(DiagnosticLabel { message, range });
        d
    }

    pub fn with_help(self, help: String) -> (r: Diagnostic)
        ensures
            r.severity == self.severity,
            r.code == self.code,
            r.message == self.message,
            r.primary_label == self.primary_label,
            r.secondary_labels == self.secondary_labels,
            r.help == Some(help),
    {
        Diagnostic { help: Some(help), ..self }
    }
}

/// Whether any of the diagnostics is an error.
pub open spec fn any_error(items: Seq<Diagnostic>) -> bool {
    exists|i: int| 0 <= i < items.len() && items[i].severity == Severity::Error
}

/// An ordered collection of diagnostics.
#[derive(Debug, Clone)]
pub struct Diagnostics {
    items: Vec<Diagnostic>,
}

impl View for Diagnostics {
    type V = Seq<Diagnostic>;

    closed spec fn view(&self) -> Seq<Diagnostic> {
        self.items@
    }
}

impl Default for Diagnostics {
    fn default() -> (r: Diagnostics)
        ensures
            r@ == Seq::<Diagnostic>::empty(),
    {
        Diagnostics::new()
    }
}

impl Diagnostics {
    pub fn new() -> (r: Diagnostics)
        ensures
            r@ == Seq::<Diagnostic>::empty(),
    {
        Diagnostics { items: Vec::new() }
    }

    /// Appends a diagnostic; earlier ones keep their order.
    pub fn push(&mut self, diagnostic: Diagnostic)
        ensures
            final(self)@ == old(self)@.push(diagnostic),
    {
        self.items.push(diagnostic);
    }

    /// True when no diagnostic is an error.
    pub fn is_ok(&self) -> (r: bool)
        ensures
            r == !any_error(self@),
    {
        !self.has_errors()
    }

    /// True when some diagnostic is an error.
    pub fn has_errors(&self) -> (r: bool)
        ensures
            r == any_error(self@),
    {
        let mut i: usize = 0;
        while i < self.items.len()
            invariant
                i <= self.items@.len(),
                forall|j: int| 0 <= j < i ==> self.items@[j].severity != Severity::Error,
            decreases self.items@.len() - i,
        {
            if self.items[i].severity == Severity::Error {
                return true;
            }
            i = i + 1;
        }
        false
    }

    pub fn items(&self) -> (r: &[Diagnostic])
        ensures
            r@ == self@,
    {
        self.items.as_slice()
    }

    pub fn into_vec(self) -> (r: Vec<Diagnostic>)
        ensures
            r@ == self@,
    {
        self.items
    }

    pub fn len(&self) -> (r: usize)
        ensures
            r == self@.len(),
    {
        self.items.len()
    }
}

/// Pushing an error makes the collection report errors, whatever it held.
pub proof fn law_error_is_sticky(before: Seq<Diagnostic>, d: Diagnostic)
    requires
        d.severity == Severity::Error,
    ensures
        any_error(before.push(d)),
{
    assert(before.push(d)[before.len() as int] == d);
}

/// Pushing a warning or a note leaves the error status unchanged.
pub proof fn law_non_error_keeps_status(before: Seq<Diagnostic>, d: Diagnostic)
    requires
        d.severity != Severity::Error,
    ensures
        any_error(before.push(d)) == any_error(before),
{
    let after = before.push(d);
    if any_error(before) {
        let i = choose|i: int| 0 <= i < before.len() && before[i].severity == Severity::Error;
        assert(after[i] == before[i]);
    }
    if any_error(after) {
        let i = choose|i: int| 0 <= i < after.len() && after[i].severity == Severity::Error;
        assert(i < before.len());
        assert(after[i] == before[i]);
    }
}

} // verus!
