use vstd::prelude::*;

verus! {

/// Canonical taxonomy of detected issues.
#[derive(Debug, Clone, Copy, PartialEq, Eq, Structural)]
pub enum ErrorType {
    Spelling,
    Grammar,
    Punctuation,
    Style,
    Redundancy,
    Clarity,
    Other,
}

/// How serious a finding is; used only to rank findings.
#[derive(Debug, Clone, Copy, PartialEq, Eq, Structural)]
pub enum Severity {
    Error,
    Warning,
    Info,
}

impl Severity {
    /// The lower-case label of the severity.
    pub fn label(&self) -> (r: String)
        ensures
            r@ == severity_label(*self),
    {
        match self {
            Severity::Error => "error".to_string(),
            Severity::Warning => "warning".to_string(),
            Severity::Info => "info".to_string(),
        }
    }
}

pub open spec fn severity_label(s: Severity) -> Seq<char> {
    match s {
        Severity::Error => "error"@,
        Severity::Warning => "warning"@,
        Severity::Info => "info"@,
    }
}

/// A detected issue. `offset` and `length` are byte units over the text that was
/// analysed; `confidence` is a percentage in `0..=100`.
#[derive(Debug)]
pub struct GrammarError {
    pub message: String,
    pub rule_id: String,
    pub category: String,
    pub offset: usize,
    pub length: usize,
    pub context: String,
    pub suggestions: Vec<String>,
    pub severity: Severity,
    pub confidence: u8,
    pub error_type: ErrorType,
}

/// Field-by-field equality of two findings, strings compared by content.
pub open spec fn same_finding(a: GrammarError, b: GrammarError) -> bool {
    &&& a.message@ == b.message@
    &&& a.rule_id@ == b.rule_id@
    &&& a.category@ == b.category@
    &&& a.offset == b.offset
    &&& a.length == b.length
    &&& a.context@ == b.context@
    &&& a.suggestions@.len() == b.suggestions@.len()
    &&& forall|k: int|
        0 <= k < a.suggestions@.len() ==> #[trigger] a.suggestions@[k]@ == b.suggestions@[k]@
    &&& a.severity == b.severity
    &&& a.confidence == b.confidence
    &&& a.error_type == b.error_type
}

pub open spec fn same_findings(a: Seq<GrammarError>, b: Seq<GrammarError>) -> bool {
    &&& a.len() == b.len()
    &&& forall|k: int| 0 <= k < a.len() ==> same_finding(#[trigger] a[k], b[k])
}

pub fn copy_strings(v: &Vec<String>) -> (r: Vec<String>)
    ensures
        r@.len() == v@.len(),
        forall|k: int| 0 <= k < v@.len() ==> #[trigger] r@[k]@ == v@[k]@,
{
    let mut r: Vec<String> = Vec::new();
    let mut i: usize = 0;
    while i < v.len()
        invariant
            i <= v@.len(),
            r@.len() == i,
            forall|k: int| 0 <= k < i ==> #[trigger] r@[k]@ == v@[k]@,
        decreases v@.len() - i,
    {
        r.push(v[i].clone());
        i = i + 1;
    }
    r
}

impl GrammarError {
    /// A field-by-field copy of the finding.
    pub fn duplicate(&self) -> (r: GrammarError)
        ensures
            same_finding(r, *self),
    {
        GrammarError {
            message: self.message.clone(),
            rule_id: self.rule_id.clone(),
            category: self.category.clone(),
            offset: self.offset,
            length: self.length,
            context: self.context.clone(),
            suggestions: copy_strings(&self.suggestions),
            severity: self.severity,
            confidence: self.confidence,
            error_type: self.error_type,
        }
    }
}

pub fn copy_findings(v: &Vec<GrammarError>) -> (r: Vec<GrammarError>)
    ensures
        same_findings(r@, v@),
{
    let mut r: Vec<GrammarError> = Vec::new();
    let mut i: usize = 0;
    while i < v.len()
        invariant
            i <= v@.len(),
            r@.len() == i,
            forall|k: int| 0 <= k < i ==> same_finding(#[trigger] r@[k], v@[k]),
        decreases v@.len() - i,
    {
        r.push(v[i].duplicate());
        i = i + 1;
    }
    r
}

/// The outcome of one analysis. `processing_time` is in milliseconds.
#[derive(Debug)]
pub struct GrammarCheckResult {
    pub original_text: String,
    pub corrected_text: String,
    pub errors: Vec<GrammarError>,
    pub processing_time: u64,
    pub error_count: usize,
}

pub open spec fn same_result(a: GrammarCheckResult, b: GrammarCheckResult) -> bool {
    &&& a.original_text@ == b.original_text@
    &&& a.corrected_text@ == b.corrected_text@
    &&& same_findings(a.errors@, b.errors@)
    &&& a.processing_time == b.processing_time
    &&& a.error_count == b.error_count
}

impl GrammarCheckResult {
    /// A field-by-field copy of the result.
    pub fn duplicate(&self) -> (r: GrammarCheckResult)
        ensures
            same_result(r, *self),
    {
        GrammarCheckResult {
            original_text: self.original_text.clone(),
            corrected_text: self.corrected_text.clone(),
            errors: copy_findings(&self.errors),
            processing_time: self.processing_time,
            error_count: self.error_count,
        }
    }
}

/// A text replacement: the bytes `offset .. offset + length` become `replacement`.
/// `rank` orders edits that share an offset (higher first).
#[derive(Debug)]
pub struct Edit {
    pub offset: usize,
    pub length: usize,
    pub replacement: String,
    pub rank: u32,
}

impl Edit {
    pub fn duplicate(&self) -> (r: Edit)
        ensures
            r == *self,
    {
        Edit {
            offset: self.offset,
            length: self.length,
            replacement: self.replacement.clone(),
            rank: self.rank,
        }
    }
}

} // verus!
