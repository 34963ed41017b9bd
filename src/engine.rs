//! The linguistic engine's side: its lint kinds mapped onto the common
//! taxonomy, its character-indexed spans turned into byte offsets, and the
//! choice and merge of engine and pattern findings per provider.
use vstd::prelude::*;
use crate::finding::{GrammarError, ErrorType, Severity, same_finding, same_findings};
use crate::text::{utf8_of, bytes_of, context_text, extract_context};

verus! {

/// At most this many suggestions of an engine lint are kept.
pub const MAX_SUGGESTIONS: usize = 5;

/// The kinds of issue the linguistic engine reports.
#[derive(Debug, Clone, Copy, PartialEq, Eq, Structural)]
pub enum LintKind {
    Spelling,
    Repetition,
    Capitalization,
    Punctuation,
    Readability,
    Miscellaneous,
    Agreement,
    BoundaryError,
    Eggcorn,
    Enhancement,
    Formatting,
    Redundancy,
    WordChoice,
    /// A kind this library does not know.
    Unknown,
}

/// One issue as the linguistic engine reports it: a span of character
/// (not byte) indices, `start..end`, and its replacement texts.
#[derive(Debug)]
pub struct RawLint {
    pub start: usize,
    pub end: usize,
    pub kind: LintKind,
    pub message: String,
    pub suggestions: Vec<String>,
}

/// Why the linguistic engine gave no findings.
#[derive(Debug, Clone, Copy, PartialEq, Eq, Structural)]
pub enum ProviderError {
    Unavailable,
    Timeout,
}

/// Which detectors a service uses.
#[derive(Debug, Clone, Copy, PartialEq, Eq, Structural)]
pub enum GrammarProvider {
    /// The linguistic engine only.
    Harper,
    /// The pattern detector only.
    OfflineRules,
    /// The pattern detector, with the engine's findings merged in.
    Hybrid,
}

/// The canonical type, severity and confidence (percent) of an engine lint kind.
pub open spec fn lint_mapping(k: LintKind) -> (ErrorType, Severity, u8) {
    match k {
        LintKind::Spelling => (ErrorType::Spelling, Severity::Error, 90),
        LintKind::Repetition => (ErrorType::Redundancy, Severity::Info, 80),
        LintKind::Capitalization => (ErrorType::Grammar, Severity::Error, 85),
        LintKind::Punctuation => (ErrorType::Punctuation, Severity::Warning, 80),
        LintKind::Readability => (ErrorType::Clarity, Severity::Info, 60),
        LintKind::Miscellaneous => (ErrorType::Other, Severity::Info, 50),
        LintKind::Agreement => (ErrorType::Grammar, Severity::Error, 90),
        LintKind::BoundaryError => (ErrorType::Other, Severity::Warning, 70),
        LintKind::Eggcorn => (ErrorType::Spelling, Severity::Warning, 80),
        LintKind::Enhancement => (ErrorType::Style, Severity::Info, 60),
        LintKind::Formatting => (ErrorType::Style, Severity::Info, 70),
        LintKind::Redundancy => (ErrorType::Redundancy, Severity::Info, 80),
        LintKind::WordChoice => (ErrorType::Style, Severity::Info, 60),
        LintKind::Unknown => (ErrorType::Other, Severity::Info, 50),
    }
}

pub open spec fn lint_category(k: LintKind) -> Seq<char> {
    match k {
        LintKind::Spelling => "Spelling"@,
        LintKind::Repetition => "Repetition"@,
        LintKind::Capitalization => "Capitalization"@,
        LintKind::Punctuation => "Punctuation"@,
        LintKind::Readability => "Readability"@,
        LintKind::Miscellaneous => "Grammar"@,
        LintKind::Agreement => "Grammar"@,
        LintKind::BoundaryError => "Formatting"@,
        LintKind::Eggcorn => "Spelling"@,
        LintKind::Enhancement => "Style"@,
        LintKind::Formatting => "Formatting"@,
        LintKind::Redundancy => "Redundancy"@,
        LintKind::WordChoice => "Style"@,
        LintKind::Unknown => "Other"@,
    }
}

pub fn map_harper_lint_kind(k: LintKind) -> (r: (ErrorType, Severity, u8))
    ensures
        r == lint_mapping(k),
{
    match k {
        LintKind::Spelling => (ErrorType::Spelling, Severity::Error, 90),
        LintKind::Repetition => (ErrorType::Redundancy, Severity::Info, 80),
        LintKind::Capitalization => (ErrorType::Grammar, Severity::Error, 85),
        LintKind::Punctuation => (ErrorType::Punctuation, Severity::Warning, 80),
        LintKind::Readability => (ErrorType::Clarity, Severity::Info, 60),
        LintKind::Miscellaneous => (ErrorType::Other, Severity::Info, 50),
        LintKind::Agreement => (ErrorType::Grammar, Severity::Error, 90),
        LintKind::BoundaryError => (ErrorType::Other, Severity::Warning, 70),
        LintKind::Eggcorn => (ErrorType::Spelling, Severity::Warning, 80),
        LintKind::Enhancement => (ErrorType::Style, Severity::Info, 60),
        LintKind::Formatting => (ErrorType::Style, Severity::Info, 70),
        LintKind::Redundancy => (ErrorType::Redundancy, Severity::Info, 80),
        LintKind::WordChoice => (ErrorType::Style, Severity::Info, 60),
        LintKind::Unknown => (ErrorType::Other, Severity::Info, 50),
    }
}

pub fn get_harper_category(k: LintKind) -> (r: String)
    ensures
        r@ == lint_category(k),
{
    match k {
        LintKind::Spelling => "Spelling".to_string(),
        LintKind::Repetition => "Repetition".to_string(),
        LintKind::Capitalization => "Capitalization".to_string(),
        LintKind::Punctuation => "Punctuation".to_string(),
        LintKind::Readability => "Readability".to_string(),
        LintKind::Miscellaneous => "Grammar".to_string(),
        LintKind::Agreement => "Grammar".to_string(),
        LintKind::BoundaryError => "Formatting".to_string(),
        LintKind::Eggcorn => "Spelling".to_string(),
        LintKind::Enhancement => "Style".to_string(),
        LintKind::Formatting => "Formatting".to_string(),
        LintKind::Redundancy => "Redundancy".to_string(),
        LintKind::WordChoice => "Style".to_string(),
        LintKind::Unknown => "Other".to_string(),
    }
}

/// A UTF-8 continuation byte, which never starts a character.
pub open spec fn is_continuation(c: u8) -> bool {
    128 <= c && c < 192
}

/// The byte index of the character `n` places on from byte `i`, or the length.
pub open spec fn char_start_from(b: Seq<u8>, i: int, n: nat) -> int
    decreases b.len() - i,
{
    if i < 0 || i >= b.len() {
        b.len() as int
    } else if is_continuation(b[i]) {
        char_start_from(b, i + 1, n)
    } else if n == 0 {
        i
    } else {
        char_start_from(b, i + 1, (n - 1) as nat)
    }
}

/// The byte offset of the character with index `n`, counting code points;
/// the length of the text when it has no such character.
pub open spec fn byte_offset_of_char(b: Seq<u8>, n: nat) -> int {
    char_start_from(b, 0, n)
}

pub fn calculate_char_offset_to_byte(b: &Vec<u8>, char_index: usize) -> (r: usize)
    ensures
        r == byte_offset_of_char(b@, char_index as nat),
{
    let mut i: usize = 0;
    let mut n: usize = char_index;
    while i < b.len()
        invariant
            i <= b@.len(),
            byte_offset_of_char(b@, char_index as nat) == char_start_from(b@, i as int, n as nat),
        decreases b@.len() - i,
    {
        let c = b[i];
        if 128 <= c && c < 192 {
        } else if n == 0 {
            return i;
        } else {
            n = n - 1;
        }
        i = i + 1;
    }
    b.len()
}

/// `f` is the finding made of lint `l` over the text bytes `b`.
pub open spec fn converted(b: Seq<u8>, l: RawLint, f: GrammarError) -> bool {
    let s = byte_offset_of_char(b, l.start as nat);
    let e = byte_offset_of_char(b, l.end as nat);
    &&& f.offset == s
    &&& f.length == (if e > s { e - s } else { 0 })
    &&& (f.error_type, f.severity, f.confidence) == lint_mapping(l.kind)
    &&& f.category@ == lint_category(l.kind)
    &&& f.rule_id@ == lint_rule(l.kind)
    &&& f.context@ == context_text(b, f.offset as int, f.length as int)
    &&& f.message@ == l.message@
    &&& f.suggestions@.len() == (if l.suggestions@.len() < MAX_SUGGESTIONS {
        l.suggestions@.len() as int
    } else {
        MAX_SUGGESTIONS as int
    })
    &&& forall|k: int|
        0 <= k < f.suggestions@.len() ==> #[trigger] f.suggestions@[k]@ == l.suggestions@[k]@
}

fn first_suggestions(v: &Vec<String>) -> (r: Vec<String>)
    ensures
        r@.len() == (if v@.len() < MAX_SUGGESTIONS {
            v@.len() as int
        } else {
            MAX_SUGGESTIONS as int
        }),
        forall|k: int| 0 <= k < r@.len() ==> #[trigger] r@[k]@ == v@[k]@,
{
    let mut r: Vec<String> = Vec::new();
    let mut i: usize = 0;
    while i < v.len() && i < MAX_SUGGESTIONS
        invariant
            i <= v@.len(),
            i <= MAX_SUGGESTIONS,
            r@.len() == i,
            forall|k: int| 0 <= k < i ==> #[trigger] r@[k]@ == v@[k]@,
        decreases v@.len() - i,
    {
        r.push(v[i].clone());
        i = i + 1;
    }
    r
}

/// The rule identifier of an engine finding: `HARPER_` and the kind's name.
pub open spec fn lint_rule(k: LintKind) -> Seq<char> {
    match k {
        LintKind::Spelling => "HARPER_Spelling"@,
        LintKind::Repetition => "HARPER_Repetition"@,
        LintKind::Capitalization => "HARPER_Capitalization"@,
        LintKind::Punctuation => "HARPER_Punctuation"@,
        LintKind::Readability => "HARPER_Readability"@,
        LintKind::Miscellaneous => "HARPER_Miscellaneous"@,
        LintKind::Agreement => "HARPER_Agreement"@,
        LintKind::BoundaryError => "HARPER_BoundaryError"@,
        LintKind::Eggcorn => "HARPER_Eggcorn"@,
        LintKind::Enhancement => "HARPER_Enhancement"@,
        LintKind::Formatting => "HARPER_Formatting"@,
        LintKind::Redundancy => "HARPER_Redundancy"@,
        LintKind::WordChoice => "HARPER_WordChoice"@,
        LintKind::Unknown => "HARPER_Other"@,
    }
}

fn lint_rule_id(k: LintKind) -> (r: String)
    ensures
        r@ == lint_rule(k),
{
    match k {
        LintKind::Spelling => "HARPER_Spelling".to_string(),
        LintKind::Repetition => "HARPER_Repetition".to_string(),
        LintKind::Capitalization => "HARPER_Capitalization".to_string(),
        LintKind::Punctuation => "HARPER_Punctuation".to_string(),
        LintKind::Readability => "HARPER_Readability".to_string(),
        LintKind::Miscellaneous => "HARPER_Miscellaneous".to_string(),
        LintKind::Agreement => "HARPER_Agreement".to_string(),
        LintKind::BoundaryError => "HARPER_BoundaryError".to_string(),
        LintKind::Eggcorn => "HARPER_Eggcorn".to_string(),
        LintKind::Enhancement => "HARPER_Enhancement".to_string(),
        LintKind::Formatting => "HARPER_Formatting".to_string(),
        LintKind::Redundancy => "HARPER_Redundancy".to_string(),
        LintKind::WordChoice => "HARPER_WordChoice".to_string(),
        LintKind::Unknown => "HARPER_Other".to_string(),
    }
}

/// The findings of the engine's lints over `text`, one per lint, in order.
pub fn convert_lints(text: &str, lints: &Vec<RawLint>) -> (r: Vec<GrammarError>)
    ensures
        r@.len() == lints@.len(),
        forall|k: int| 0 <= k < r@.len() ==> converted(utf8_of(text@), lints@[k], #[trigger] r@[k]),
{
    let b = bytes_of(text);
    proof {
        vstd::utf8::encode_utf8_valid_utf8(text@);
    }
    let mut r: Vec<GrammarError> = Vec::new();
    let mut i: usize = 0;
    while i < lints.len()
        invariant
            i <= lints@.len(),
            b@ == utf8_of(text@),
            vstd::utf8::valid_utf8(b@),
            r@.len() == i,
            forall|k: int| 0 <= k < i ==> converted(b@, lints@[k], #[trigger] r@[k]),
        decreases lints@.len() - i,
    {
        let l = &lints[i];
        let s = calculate_char_offset_to_byte(&b, l.start);
        let e = calculate_char_offset_to_byte(&b, l.end);
        let length: usize = if e > s {
            e - s
        } else {
            0
        };
        let (error_type, severity, confidence) = map_harper_lint_kind(l.kind);
        r.push(
            GrammarError {
                message: l.message.clone(),
                rule_id: lint_rule_id(l.kind),
                category: get_harper_category(l.kind),
                offset: s,
                length,
                context: extract_context(&b, s, length),
                suggestions: first_suggestions(&l.suggestions),
                severity,
                confidence,
                error_type,
            },
        );
        i = i + 1;
    }
    r
}

pub open spec fn same_span(a: GrammarError, b: GrammarError) -> bool {
    a.offset == b.offset && a.length == b.length
}

pub open spec fn has_span(s: Seq<GrammarError>, f: GrammarError) -> bool {
    exists|k: int| 0 <= k < s.len() && same_span(#[trigger] s[k], f)
}

/// The pattern findings followed by each engine finding whose span
/// (offset and length) is not already present, first writer winning.
pub open spec fn merged(p: Seq<GrammarError>, e: Seq<GrammarError>) -> Seq<GrammarError>
    decreases e.len(),
{
    if e.len() == 0 {
        p
    } else {
        let prev = merged(p, e.drop_last());
        if has_span(prev, e.last()) {
            prev
        } else {
            prev.push(e.last())
        }
    }
}

fn span_present(s: &Vec<GrammarError>, f: &GrammarError) -> (r: bool)
    ensures
        r == has_span(s@, *f),
{
    let mut k: usize = 0;
    while k < s.len()
        invariant
            k <= s@.len(),
            forall|j: int| 0 <= j < k ==> !same_span(#[trigger] s@[j], *f),
        decreases s@.len() - k,
    {
        if s[k].offset == f.offset && s[k].length == f.length {
            assert(same_span(s@[k as int], *f));
            return true;
        }
        k = k + 1;
    }
    false
}

/// Merges the engine's findings into the pattern findings, skipping any whose
/// span is already present.
pub fn merge_findings(pattern: Vec<GrammarError>, engine: &Vec<GrammarError>) -> (r: Vec<GrammarError>)
    ensures
        same_findings(r@, merged(pattern@, engine@)),
{
    let mut r = pattern;
    let ghost p = r@;
    let mut i: usize = 0;
    proof {
        assert(engine@.subrange(0, 0) =~= Seq::<GrammarError>::empty());
    }
    while i < engine.len()
        invariant
            i <= engine@.len(),
            same_findings(r@, merged(p, engine@.subrange(0, i as int))),
        decreases engine@.len() - i,
    {
        let ghost m = merged(p, engine@.subrange(0, i as int));
        proof {
            let s = engine@.subrange(0, i + 1);
            assert(s.drop_last() =~= engine@.subrange(0, i as int));
            assert(s.last() == engine@[i as int]);
        }
        let present = span_present(&r, &engine[i]);
        proof {
            if has_span(r@, engine@[i as int]) {
                let k = choose|k: int| 0 <= k < r@.len() && same_span(#[trigger] r@[k], engine@[i as int]);
                assert(same_finding(r@[k], m[k]));
            }
            if has_span(m, engine@[i as int]) {
                let k = choose|k: int| 0 <= k < m.len() && same_span(#[trigger] m[k], engine@[i as int]);
                assert(same_finding(r@[k], m[k]));
            }
        }
        if !present {
            r.push(engine[i].duplicate());
            proof {
                let m2 = m.push(engine@[i as int]);
                assert forall|k: int| 0 <= k < r@.len() implies same_finding(#[trigger] r@[k], m2[k]) by {
                    if k < m.len() {
                        assert(same_finding(r@[k], m[k]));
                    }
                }
            }
        }
        i = i + 1;
    }
    proof {
        assert(engine@.subrange(0, engine@.len() as int) =~= engine@);
    }
    r
}

/// The findings a provider setting yields from the pattern findings and what
/// the engine returned.
pub open spec fn selected(
    provider: GrammarProvider,
    offline_fallback: bool,
    p: Seq<GrammarError>,
    engine: Result<Seq<GrammarError>, ProviderError>,
) -> Seq<GrammarError> {
    match provider {
        GrammarProvider::OfflineRules => p,
        GrammarProvider::Harper => match engine {
            Ok(e) => e,
            Err(_) => if offline_fallback {
                p
            } else {
                Seq::empty()
            },
        },
        GrammarProvider::Hybrid => match engine {
            Ok(e) => merged(p, e),
            Err(_) => p,
        },
    }
}

pub open spec fn engine_view(engine: &Result<Vec<GrammarError>, ProviderError>) -> Result<Seq<GrammarError>, ProviderError> {
    match engine {
        Ok(v) => Ok(v@),
        Err(x) => Err(*x),
    }
}

/// Chooses and combines findings per provider: the engine alone (an engine
/// failure gives the pattern findings when `offline_fallback` is set, else
/// none), the pattern detector alone, or the pattern findings with the
/// engine's merged in.
pub fn select_findings(
    provider: GrammarProvider,
    offline_fallback: bool,
    pattern: Vec<GrammarError>,
    engine: &Result<Vec<GrammarError>, ProviderError>,
) -> (r: Vec<GrammarError>)
    ensures
        same_findings(r@, selected(provider, offline_fallback, pattern@, engine_view(engine))),
{
    match provider {
        GrammarProvider::OfflineRules => {
            let r = pattern;
            assert(same_findings(r@, r@));
            r
        },
        GrammarProvider::Harper => match engine {
            Ok(e) => crate::finding::copy_findings(e),
            Err(_) => if offline_fallback {
                let r = pattern;
                assert(same_findings(r@, r@));
                r
            } else {
                Vec::new()
            },
        },
        GrammarProvider::Hybrid => match engine {
            Ok(e) => merge_findings(pattern, e),
            Err(_) => {
                let r = pattern;
                assert(same_findings(r@, r@));
                r
            },
        },
    }
}

proof fn lemma_merged_extends(p: Seq<GrammarError>, e: Seq<GrammarError>)
    ensures
        merged(p, e).len() >= p.len(),
        forall|k: int| 0 <= k < p.len() ==> #[trigger] merged(p, e)[k] == p[k],
        forall|k: int| p.len() <= k < merged(p, e).len() ==> !has_span(p, #[trigger] merged(p, e)[k]),
    decreases e.len(),
{
    if e.len() > 0 {
        let prev = merged(p, e.drop_last());
        lemma_merged_extends(p, e.drop_last());
        if !has_span(prev, e.last()) {
            let m = prev.push(e.last());
            assert forall|k: int| p.len() <= k < m.len() implies !has_span(p, #[trigger] m[k]) by {
                if k == prev.len() {
                    if has_span(p, e.last()) {
                        let j = choose|j: int| 0 <= j < p.len() && same_span(#[trigger] p[j], e.last());
                        assert(same_span(prev[j], e.last()));
                    }
                } else {
                    assert(m[k] == prev[k]);
                }
            }
        }
    }
}

/// Hybrid de-duplication: when the pattern findings hold one finding per span,
/// the merged list holds exactly one finding for each span of a pattern
/// finding, and it is the pattern finding.
pub proof fn lemma_merge_keeps_pattern(p: Seq<GrammarError>, e: Seq<GrammarError>, j: int)
    requires
        0 <= j < p.len(),
        forall|a: int, b: int| 0 <= a < b < p.len() ==> !same_span(#[trigger] p[a], #[trigger] p[b]),
    ensures
        merged(p, e)[j] == p[j],
        forall|k: int|
            0 <= k < merged(p, e).len() && same_span(#[trigger] merged(p, e)[k], p[j]) ==> k == j,
{
    lemma_merged_extends(p, e);
    let m = merged(p, e);
    assert forall|k: int| 0 <= k < m.len() && same_span(#[trigger] m[k], p[j]) implies k == j by {
        if k >= p.len() {
            assert(same_span(p[j], m[k]));
            assert(has_span(p, m[k]));
        } else if k != j {
            assert(m[k] == p[k]);
            if k < j {
                assert(!same_span(p[k], p[j]));
            } else {
                assert(!same_span(p[j], p[k]));
            }
        }
    }
}

} // verus!
