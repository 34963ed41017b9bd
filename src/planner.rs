//! Decides which findings become text edits, and with which replacement.
use vstd::prelude::*;
use crate::finding::{GrammarError, ErrorType, Severity, Edit};
use crate::text::{utf8_of, bytes_of};

verus! {

/// Smart auto-apply: least confidence (percent) for a spelling finding.
pub const SPELLING_FLOOR: u8 = 80;
/// Smart auto-apply: least confidence for a punctuation finding.
pub const PUNCTUATION_FLOOR: u8 = 90;
/// Smart auto-apply: least confidence for a grammar finding.
pub const GRAMMAR_FLOOR: u8 = 95;
/// Smart auto-apply: least confidence for a redundancy finding.
pub const REDUNDANCY_FLOOR: u8 = 90;
/// Smart auto-apply: least confidence for a finding of another kind.
pub const OTHER_FLOOR: u8 = 95;
/// With smart suggestions, a replacement may be at most this many bytes longer
/// than the span it replaces.
pub const SUGGESTION_SLACK: usize = 10;

/// The confidence floor of the smart policy; style and clarity have none and
/// are never applied automatically.
pub open spec fn smart_floor(t: ErrorType) -> Option<u8> {
    match t {
        ErrorType::Spelling => Some(SPELLING_FLOOR),
        ErrorType::Punctuation => Some(PUNCTUATION_FLOOR),
        ErrorType::Grammar => Some(GRAMMAR_FLOOR),
        ErrorType::Redundancy => Some(REDUNDANCY_FLOOR),
        ErrorType::Other => Some(OTHER_FLOOR),
        ErrorType::Style => None,
        ErrorType::Clarity => None,
    }
}

pub open spec fn smart_applies(f: GrammarError) -> bool {
    match smart_floor(f.error_type) {
        Some(m) => f.confidence >= m,
        None => false,
    }
}

pub open spec fn safe_type(t: ErrorType) -> bool {
    t == ErrorType::Spelling || t == ErrorType::Punctuation || t == ErrorType::Redundancy
}

pub open spec fn high_confidence_applies(f: GrammarError, threshold: u8) -> bool {
    f.confidence >= threshold && safe_type(f.error_type) && f.severity == Severity::Error
}

pub open spec fn severity_rank(s: Severity) -> u8 {
    match s {
        Severity::Error => 3,
        Severity::Warning => 2,
        Severity::Info => 1,
    }
}

/// Orders edits at one offset: confidence first, then severity.
pub open spec fn rank_of(f: GrammarError) -> u32 {
    ((f.confidence as u32) * 4 + severity_rank(f.severity) as u32) as u32
}

pub open spec fn is_short(f: GrammarError, k: int) -> bool {
    utf8_of(f.suggestions@[k]@).len() <= f.length + SUGGESTION_SLACK
}

/// The first suggestion at or after `k` that is at most the slack longer than the span.
pub open spec fn first_short_from(f: GrammarError, k: int) -> Option<int>
    decreases f.suggestions@.len() - k,
{
    if k < 0 || k >= f.suggestions@.len() {
        None
    } else if is_short(f, k) {
        Some(k)
    } else {
        first_short_from(f, k + 1)
    }
}

/// Which suggestion is used: the first one, or with smart suggestions the
/// first one that is not disproportionately long.
pub open spec fn best_index(f: GrammarError, smart: bool) -> Option<int> {
    if !smart {
        if f.suggestions@.len() > 0 {
            Some(0)
        } else {
            None
        }
    } else {
        first_short_from(f, 0)
    }
}

pub open spec fn edit_with(f: GrammarError, k: int) -> Edit {
    Edit { offset: f.offset, length: f.length, replacement: f.suggestions@[k], rank: rank_of(f) }
}

pub open spec fn edit_for(f: GrammarError, smart: bool) -> Option<Edit> {
    match best_index(f, smart) {
        Some(k) => Some(edit_with(f, k)),
        None => None,
    }
}

/// Edits of the smart policy, in finding order.
pub open spec fn smart_edits(fs: Seq<GrammarError>, smart: bool) -> Seq<Edit>
    decreases fs.len(),
{
    if fs.len() == 0 {
        Seq::empty()
    } else {
        let prev = smart_edits(fs.drop_last(), smart);
        let f = fs.last();
        if smart_applies(f) && edit_for(f, smart) is Some {
            prev.push(edit_for(f, smart)->0)
        } else {
            prev
        }
    }
}

/// Edits of the high-confidence policy, in finding order.
pub open spec fn high_confidence_edits(fs: Seq<GrammarError>, threshold: u8, smart: bool) -> Seq<Edit>
    decreases fs.len(),
{
    if fs.len() == 0 {
        Seq::empty()
    } else {
        let prev = high_confidence_edits(fs.drop_last(), threshold, smart);
        let f = fs.last();
        if high_confidence_applies(f, threshold) && edit_for(f, smart) is Some {
            prev.push(edit_for(f, smart)->0)
        } else {
            prev
        }
    }
}

/// Edits for the findings at the given indices, first suggestion verbatim;
/// indices out of range, repeated, or of a finding without suggestions are ignored.
pub open spec fn explicit_edits(fs: Seq<GrammarError>, idx: Seq<usize>) -> Seq<Edit>
    decreases idx.len(),
{
    if idx.len() == 0 {
        Seq::empty()
    } else {
        let prev = explicit_edits(fs, idx.drop_last());
        let i = idx.last() as int;
        if i < fs.len() && fs[i].suggestions@.len() > 0 && !idx.drop_last().contains(idx.last()) {
            prev.push(edit_with(fs[i], 0))
        } else {
            prev
        }
    }
}

pub fn severity_priority(s: Severity) -> (r: u8)
    ensures
        r == severity_rank(s),
{
    match s {
        Severity::Error => 3,
        Severity::Warning => 2,
        Severity::Info => 1,
    }
}

/// The smart policy's decision for one finding.
pub fn should_auto_apply(f: &GrammarError) -> (r: bool)
    ensures
        r == smart_applies(*f),
{
    match f.error_type {
        ErrorType::Spelling => f.confidence >= SPELLING_FLOOR,
        ErrorType::Punctuation => f.confidence >= PUNCTUATION_FLOOR,
        ErrorType::Grammar => f.confidence >= GRAMMAR_FLOOR,
        ErrorType::Redundancy => f.confidence >= REDUNDANCY_FLOOR,
        ErrorType::Other => f.confidence >= OTHER_FLOOR,
        ErrorType::Style => false,
        ErrorType::Clarity => false,
    }
}

/// Spelling, punctuation and redundancy findings of severity error.
pub fn is_safe_to_auto_correct(f: &GrammarError) -> (r: bool)
    ensures
        r == (safe_type(f.error_type) && f.severity == Severity::Error),
{
    let t = match f.error_type {
        ErrorType::Spelling => true,
        ErrorType::Punctuation => true,
        ErrorType::Redundancy => true,
        _ => false,
    };
    t && f.severity == Severity::Error
}

fn rank(f: &GrammarError) -> (r: u32)
    ensures
        r == rank_of(*f),
{
    (f.confidence as u32) * 4 + severity_priority(f.severity) as u32
}

/// The index of the suggestion that a correction of `f` uses.
pub fn best_suggestion_index(f: &GrammarError, smart: bool) -> (r: Option<usize>)
    ensures
        r matches Some(k) ==> k < f.suggestions@.len(),
        match r {
            Some(k) => best_index(*f, smart) == Some(k as int),
            None => best_index(*f, smart) is None,
        },
{
    if !smart {
        return if f.suggestions.len() > 0 {
            Some(0)
        } else {
            None
        };
    }
    assert(best_index(*f, smart) == first_short_from(*f, 0));
    let mut k: usize = 0;
    while k < f.suggestions.len()
        invariant
            k <= f.suggestions@.len(),
            smart,
            best_index(*f, smart) == first_short_from(*f, k as int),
        decreases f.suggestions@.len() - k,
    {
        let n = bytes_of(f.suggestions[k].as_str()).len();
        if f.length > usize::MAX - SUGGESTION_SLACK || n <= f.length + SUGGESTION_SLACK {
            assert(is_short(*f, k as int));
            assert(first_short_from(*f, k as int) == Some(k as int));
            return Some(k);
        }
        assert(first_short_from(*f, k as int) == first_short_from(*f, k + 1));
        k = k + 1;
    }
    None
}

/// The replacement text that a correction of `f` uses, if any.
pub fn get_best_suggestion(f: &GrammarError, smart: bool) -> (r: Option<String>)
    ensures
        match best_index(*f, smart) {
            Some(k) => r matches Some(s) && s == f.suggestions@[k],
            None => r is None,
        },
{
    match best_suggestion_index(f, smart) {
        Some(k) => Some(f.suggestions[k].clone()),
        None => None,
    }
}

fn edit_from(f: &GrammarError, smart: bool) -> (r: Option<Edit>)
    ensures
        r == edit_for(*f, smart),
{
    match best_suggestion_index(f, smart) {
        Some(k) => Some(
            Edit {
                offset: f.offset,
                length: f.length,
                replacement: f.suggestions[k].clone(),
                rank: rank(f),
            },
        ),
        None => None,
    }
}

/// Smart auto-apply: per-type confidence floors; style and clarity never.
pub fn plan_smart(fs: &Vec<GrammarError>, smart: bool) -> (r: Vec<Edit>)
    ensures
        r@ == smart_edits(fs@, smart),
{
    let mut r: Vec<Edit> = Vec::new();
    let mut i: usize = 0;
    while i < fs.len()
        invariant
            i <= fs@.len(),
            r@ == smart_edits(fs@.subrange(0, i as int), smart),
        decreases fs@.len() - i,
    {
        proof {
            let s = fs@.subrange(0, i + 1);
            assert(s.drop_last() =~= fs@.subrange(0, i as int));
            assert(s.last() == fs@[i as int]);
        }
        if should_auto_apply(&fs[i]) {
            match edit_from(&fs[i], smart) {
                Some(e) => r.push(e),
                None => {},
            }
        }
        i = i + 1;
    }
    proof {
        assert(fs@.subrange(0, fs@.len() as int) =~= fs@);
    }
    r
}

/// High-confidence auto-apply: confidence at least `threshold`, a safe type,
/// and severity error.
pub fn plan_high_confidence(fs: &Vec<GrammarError>, threshold: u8, smart: bool) -> (r: Vec<Edit>)
    ensures
        r@ == high_confidence_edits(fs@, threshold, smart),
{
    let mut r: Vec<Edit> = Vec::new();
    let mut i: usize = 0;
    while i < fs.len()
        invariant
            i <= fs@.len(),
            r@ == high_confidence_edits(fs@.subrange(0, i as int), threshold, smart),
        decreases fs@.len() - i,
    {
        proof {
            let s = fs@.subrange(0, i + 1);
            assert(s.drop_last() =~= fs@.subrange(0, i as int));
            assert(s.last() == fs@[i as int]);
        }
        if fs[i].confidence >= threshold && is_safe_to_auto_correct(&fs[i]) {
            match edit_from(&fs[i], smart) {
                Some(e) => r.push(e),
                None => {},
            }
        }
        i = i + 1;
    }
    proof {
        assert(fs@.subrange(0, fs@.len() as int) =~= fs@);
    }
    r
}

fn seen_before(idx: &Vec<usize>, n: usize, v: usize) -> (r: bool)
    requires
        n <= idx@.len(),
    ensures
        r == idx@.subrange(0, n as int).contains(v),
{
    let mut j: usize = 0;
    while j < n
        invariant
            j <= n <= idx@.len(),
            forall|k: int| 0 <= k < j ==> idx@[k] != v,
        decreases n - j,
    {
        if idx[j] == v {
            assert(idx@.subrange(0, n as int)[j as int] == v);
            return true;
        }
        j = j + 1;
    }
    proof {
        if idx@.subrange(0, n as int).contains(v) {
            let k = choose|k: int| 0 <= k < n && idx@.subrange(0, n as int)[k] == v;
            assert(idx@[k] == v);
        }
    }
    false
}

/// Explicit selection: the first suggestion of each selected finding.
pub fn plan_explicit(fs: &Vec<GrammarError>, idx: &Vec<usize>) -> (r: Vec<Edit>)
    ensures
        r@ == explicit_edits(fs@, idx@),
{
    let mut r: Vec<Edit> = Vec::new();
    let mut i: usize = 0;
    while i < idx.len()
        invariant
            i <= idx@.len(),
            r@ == explicit_edits(fs@, idx@.subrange(0, i as int)),
        decreases idx@.len() - i,
    {
        proof {
            let s = idx@.subrange(0, i + 1);
            assert(s.drop_last() =~= idx@.subrange(0, i as int));
            assert(s.last() == idx@[i as int]);
        }
        let j = idx[i];
        if j < fs.len() && fs[j].suggestions.len() > 0 && !seen_before(idx, i, j) {
            let f = &fs[j];
            r.push(
                Edit {
                    offset: f.offset,
                    length: f.length,
                    replacement: f.suggestions[0].clone(),
                    rank: rank(f),
                },
            );
        }
        i = i + 1;
    }
    proof {
        assert(idx@.subrange(0, idx@.len() as int) =~= idx@);
    }
    r
}

/// Confidence gating: every edit of the smart policy comes from a finding that
/// clears its type's floor, so a style or clarity finding, whatever its
/// confidence, never yields one.
pub proof fn lemma_smart_gated(fs: Seq<GrammarError>, smart: bool)
    ensures
        forall|k: int|
            0 <= k < smart_edits(fs, smart).len() ==> exists|j: int|
                0 <= j < fs.len() && smart_applies(#[trigger] fs[j]) && edit_for(fs[j], smart)
                    == Some(#[trigger] smart_edits(fs, smart)[k]),
        forall|f: GrammarError|
            f.error_type == ErrorType::Style || f.error_type == ErrorType::Clarity
                ==> !#[trigger] smart_applies(f),
    decreases fs.len(),
{
    if fs.len() > 0 {
        let prev = fs.drop_last();
        lemma_smart_gated(prev, smart);
        let out = smart_edits(fs, smart);
        assert forall|k: int| 0 <= k < out.len() implies exists|j: int|
            0 <= j < fs.len() && smart_applies(#[trigger] fs[j]) && edit_for(fs[j], smart)
                == Some(#[trigger] out[k]) by {
            if k < smart_edits(prev, smart).len() {
                let j = choose|j: int|
                    0 <= j < prev.len() && smart_applies(#[trigger] prev[j]) && edit_for(prev[j], smart)
                        == Some(smart_edits(prev, smart)[k]);
                assert(fs[j] == prev[j]);
            } else {
                assert(fs[fs.len() - 1] == fs.last());
            }
        }
    }
}

} // verus!
