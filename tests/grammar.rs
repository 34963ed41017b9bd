use proofread::engine::{GrammarProvider, LintKind, ProviderError, RawLint};
use proofread::finding::{Edit, ErrorType, GrammarError, Severity};
use proofread::patcher::{apply_edits, order_edits};
use proofread::patterns::check_basic_patterns;
use proofread::planner::{
    get_best_suggestion, is_safe_to_auto_correct, plan_explicit, plan_high_confidence, plan_smart,
    severity_priority, should_auto_apply,
};
use proofread::service::{GrammarConfig, GrammarService};

fn edit(offset: usize, length: usize, replacement: &str) -> Edit {
    Edit { offset, length, replacement: replacement.to_string(), rank: 0 }
}

fn finding(error_type: ErrorType, confidence: u8, severity: Severity, suggestions: &[&str]) -> GrammarError {
    GrammarError {
        message: "m".to_string(),
        rule_id: "R".to_string(),
        category: "C".to_string(),
        offset: 0,
        length: 3,
        context: String::new(),
        suggestions: suggestions.iter().map(|s| s.to_string()).collect(),
        severity,
        confidence,
        error_type,
    }
}

fn offline_config() -> GrammarConfig {
    let mut c = GrammarConfig::default();
    c.provider = GrammarProvider::OfflineRules;
    c
}

fn no_engine() -> Result<Vec<RawLint>, ProviderError> {
    Err(ProviderError::Unavailable)
}

#[test]
fn multi_edit_patch_uses_original_offsets() {
    let text = "The the  cat sat .";
    let found = check_basic_patterns(text);
    let spans: Vec<(usize, usize)> = found.iter().map(|f| (f.offset, f.length)).collect();
    assert!(spans.contains(&(7, 2)));
    assert!(spans.contains(&(16, 2)));
    let edits = vec![edit(7, 2, " "), edit(16, 2, ".")];
    assert_eq!(apply_edits(text, &edits), "The the cat sat.");
    let reversed = vec![edit(16, 2, "."), edit(7, 2, " ")];
    assert_eq!(apply_edits(text, &reversed), "The the cat sat.");
}

#[test]
fn stale_edit_is_skipped() {
    let text = "The the  cat sat .";
    let edits = vec![edit(8, 2, " "), edit(17, 2, ".")];
    assert_eq!(apply_edits(text, &edits), "The the  at sat .");
    assert_eq!(apply_edits("abc", &vec![edit(2, 5, "zz")]), "abc");
    assert_eq!(apply_edits("abc", &vec![edit(usize::MAX, 2, "zz")]), "abc");
}

#[test]
fn length_changes_only_inside_spans() {
    let text = "aaa bbb ccc";
    let edits = vec![edit(0, 3, "x"), edit(8, 3, "yyyyy")];
    assert_eq!(apply_edits(text, &edits), "x bbb yyyyy");
}

#[test]
fn edit_splitting_a_character_is_skipped_alone() {
    let text = "h\u{e9}llo";
    assert_eq!(apply_edits(text, &vec![edit(1, 1, "e")]), text);
    assert_eq!(apply_edits(text, &vec![edit(1, 2, "e")]), "hello");
    assert_eq!(apply_edits(text, &vec![edit(2, 2, "x"), edit(0, 1, "H")]), "H\u{e9}llo");
}

#[test]
fn edit_order_does_not_depend_on_listing() {
    let a = vec![edit(3, 0, "X"), edit(3, 2, "Y")];
    let b = vec![edit(3, 2, "Y"), edit(3, 0, "X")];
    assert_eq!(apply_edits("abcdefg", &a), apply_edits("abcdefg", &b));
    let c = vec![edit(0, 1, "p"), edit(0, 1, "q")];
    let d = vec![edit(0, 1, "q"), edit(0, 1, "p")];
    assert_eq!(apply_edits("abc", &c), apply_edits("abc", &d));
}

#[test]
fn cached_result_answers_blank_and_hits() {
    let mut s = GrammarService::with_config(offline_config());
    assert!(s.cached_result("   ", false, 0).unwrap().errors.is_empty());
    assert!(s.cached_result("teh", false, 0).is_none());
    let r = s.check_text("teh", false, 0, &no_engine());
    let hit = s.cached_result("teh", false, 10).unwrap();
    assert_eq!(hit.corrected_text, r.corrected_text);
    assert!(s.cached_result("teh", false, 400_000).is_none());
    assert_eq!(s.cache.len(), 0);
}

#[test]
fn scenario_offline_autocorrect() {
    let mut s = GrammarService::with_config(offline_config());
    let r = s.check_text("teh cat sat ,", true, 1_000, &no_engine());
    let spell = r.errors.iter().find(|f| f.error_type == ErrorType::Spelling).unwrap();
    assert_eq!((spell.offset, spell.length), (0, 3));
    assert_eq!(spell.suggestions, vec!["the".to_string()]);
    assert_eq!(spell.confidence, 80);
    assert_eq!(spell.severity, Severity::Error);
    let punct = r.errors.iter().find(|f| f.error_type == ErrorType::Punctuation).unwrap();
    assert_eq!((punct.offset, punct.length), (11, 2));
    assert_eq!(punct.suggestions, vec![",".to_string()]);
    assert_eq!(r.corrected_text, "the cat sat,");
    assert_eq!(r.original_text, "teh cat sat ,");
    assert_eq!(r.error_count, r.errors.len());
}

#[test]
fn check_twice_is_identical() {
    let mut s = GrammarService::with_config(offline_config());
    let a = s.check_text("Hello  world. this is teh end .", false, 5_000, &no_engine());
    let b = s.check_text("Hello  world. this is teh end .", false, 5_000, &no_engine());
    assert_eq!(a.original_text, b.original_text);
    assert_eq!(a.corrected_text, b.corrected_text);
    assert_eq!(a.processing_time, b.processing_time);
    assert_eq!(a.error_count, b.error_count);
    assert_eq!(a.errors.len(), b.errors.len());
    for (x, y) in a.errors.iter().zip(b.errors.iter()) {
        assert_eq!((x.offset, x.length, x.confidence), (y.offset, y.length, y.confidence));
        assert_eq!(x.suggestions, y.suggestions);
        assert_eq!(x.rule_id, y.rule_id);
        assert_eq!(x.message, y.message);
        assert_eq!(x.context, y.context);
    }
    assert_eq!(s.cache.len(), 1);
}

#[test]
fn blank_text_short_circuits() {
    let mut s = GrammarService::with_config(offline_config());
    let r = s.check_text("  \n\t ", true, 0, &no_engine());
    assert_eq!(r.original_text, "  \n\t ");
    assert_eq!(r.corrected_text, "  \n\t ");
    assert!(r.errors.is_empty());
    assert_eq!(r.processing_time, 0);
    assert_eq!(s.cache.len(), 0);
}

#[test]
fn cache_key_ignores_language() {
    let a = GrammarService::with_config(offline_config());
    let mut other = offline_config();
    other.language = "de-DE".to_string();
    let b = GrammarService::with_config(other);
    let ka = a.generate_cache_key("  some text ", true);
    let kb = b.generate_cache_key("some text", true);
    assert_eq!(ka.text, kb.text);
    assert_eq!(ka.text, "some text".chars().collect::<Vec<char>>());
    assert_eq!(
        (ka.auto_correct, ka.smart_suggestions, ka.style_checks),
        (kb.auto_correct, kb.smart_suggestions, kb.style_checks)
    );
    let mut styled = offline_config();
    styled.enable_style_checks = false;
    let c = GrammarService::with_config(styled);
    assert_ne!(c.generate_cache_key("some text", true).style_checks, ka.style_checks);
}

#[test]
fn cache_expires_after_ttl() {
    let mut s = GrammarService::with_config(offline_config());
    s.check_text("teh", false, 0, &no_engine());
    assert_eq!(s.cache.len(), 1);
    s.check_text("teh", false, 300_000, &no_engine());
    assert_eq!(s.cache.len(), 1);
    assert_eq!(s.cache.entries[0].created_at, 0);
    s.check_text("teh", false, 300_001, &no_engine());
    assert_eq!(s.cache.len(), 1);
    assert_eq!(s.cache.entries[0].created_at, 300_001);
}

#[test]
fn cache_evicts_oldest_above_cap() {
    let mut s = GrammarService::with_config(offline_config());
    for i in 0..101u64 {
        let text = format!("text number {}", i);
        s.check_text(&text, false, 10 + i, &no_engine());
    }
    assert_eq!(s.cache.len(), 50);
    let first: String = s.cache.entries[0].key.text.iter().collect();
    assert_eq!(first, "text number 51");
    let last: String = s.cache.entries[49].key.text.iter().collect();
    assert_eq!(last, "text number 100");
}

#[test]
fn cache_cleanup_drops_expired_first() {
    let mut s = GrammarService::with_config(offline_config());
    for i in 0..60u64 {
        s.check_text(&format!("old {}", i), false, 0, &no_engine());
    }
    for i in 0..41u64 {
        s.check_text(&format!("new {}", i), false, 400_000, &no_engine());
    }
    assert_eq!(s.cache.len(), 41);
}

#[test]
fn hybrid_keeps_pattern_finding_on_same_span() {
    let mut c = offline_config();
    c.provider = GrammarProvider::Hybrid;
    let mut s = GrammarService::with_config(c);
    let lints = vec![
        RawLint { start: 7, end: 9, kind: LintKind::Formatting, message: "spaces".to_string(), suggestions: vec![" ".to_string()] },
        RawLint { start: 0, end: 3, kind: LintKind::Capitalization, message: "cap".to_string(), suggestions: vec!["The".to_string()] },
    ];
    let r = s.check_text("the cat  sat", false, 0, &Ok(lints));
    let at7: Vec<&GrammarError> = r.errors.iter().filter(|f| f.offset == 7 && f.length == 2).collect();
    assert_eq!(at7.len(), 1);
    assert_eq!(at7[0].rule_id, "DOUBLE_SPACE");
    assert!(r.errors.iter().any(|f| f.rule_id == "HARPER_Capitalization" && f.offset == 0 && f.length == 3));
    assert_eq!(r.errors.len(), 2);
}

#[test]
fn engine_provider_falls_back_when_configured() {
    let mut c = GrammarConfig::default();
    c.offline_fallback = true;
    let mut s = GrammarService::with_config(c);
    let r = s.check_text("teh", false, 0, &no_engine());
    assert_eq!(r.errors.len(), 1);
    let mut c2 = GrammarConfig::default();
    c2.offline_fallback = false;
    let mut s2 = GrammarService::with_config(c2);
    let r2 = s2.check_text("teh", false, 0, &Err(ProviderError::Timeout));
    assert!(r2.errors.is_empty());
    assert_eq!(r2.corrected_text, "teh");
}

#[test]
fn engine_findings_use_byte_offsets() {
    let mut c = GrammarConfig::default();
    c.auto_apply_high_confidence = false;
    let mut s = GrammarService::with_config(c);
    let lints = vec![RawLint {
        start: 2,
        end: 5,
        kind: LintKind::Spelling,
        message: "spelling".to_string(),
        suggestions: vec!["a".into(), "b".into(), "c".into(), "d".into(), "e".into(), "f".into()],
    }];
    let r = s.check_text("\u{e9}\u{e9}abc", false, 0, &Ok(lints));
    assert_eq!(r.errors.len(), 1);
    let f = &r.errors[0];
    assert_eq!((f.offset, f.length), (4, 3));
    assert_eq!(f.suggestions.len(), 5);
    assert_eq!((f.error_type, f.severity, f.confidence), (ErrorType::Spelling, Severity::Error, 90));
    assert_eq!(f.category, "Spelling");
}

#[test]
fn high_confidence_policy_applies_safe_findings() {
    let mut c = GrammarConfig::default();
    c.provider = GrammarProvider::OfflineRules;
    c.auto_apply_threshold = 90;
    let mut s = GrammarService::with_config(c);
    let r = s.check_text("teh dog ,", false, 0, &no_engine());
    assert_eq!(r.corrected_text, "teh dog,");
    let mut c2 = offline_config();
    c2.auto_apply_high_confidence = false;
    let mut s2 = GrammarService::with_config(c2);
    assert_eq!(s2.check_text("teh dog ,", false, 0, &no_engine()).corrected_text, "teh dog ,");
}

#[test]
fn specific_corrections_by_index() {
    let mut c = offline_config();
    c.auto_apply_high_confidence = false;
    let mut s = GrammarService::with_config(c);
    let text = "teh cat sat ,";
    let r = s.check_text(text, false, 0, &no_engine());
    let spell = r.errors.iter().position(|f| f.error_type == ErrorType::Spelling).unwrap();
    let out = s.apply_specific_corrections(text, &vec![spell, spell, 99], 0, &no_engine());
    assert_eq!(out, "the cat sat ,");
    assert_eq!(s.apply_specific_corrections(text, &vec![], 0, &no_engine()), text);
    let all: Vec<usize> = (0..r.errors.len()).collect();
    assert_eq!(s.apply_specific_corrections(text, &all, 0, &no_engine()), "the cat sat,");
}

#[test]
fn smart_policy_never_applies_style() {
    let style = finding(ErrorType::Style, 100, Severity::Error, &["x"]);
    let clarity = finding(ErrorType::Clarity, 100, Severity::Error, &["x"]);
    assert!(!should_auto_apply(&style));
    assert!(!should_auto_apply(&clarity));
    assert!(plan_smart(&vec![style, clarity], true).is_empty());
}

#[test]
fn smart_policy_floors() {
    assert!(should_auto_apply(&finding(ErrorType::Spelling, 80, Severity::Info, &["x"])));
    assert!(!should_auto_apply(&finding(ErrorType::Spelling, 79, Severity::Info, &["x"])));
    assert!(should_auto_apply(&finding(ErrorType::Punctuation, 90, Severity::Info, &["x"])));
    assert!(!should_auto_apply(&finding(ErrorType::Grammar, 94, Severity::Info, &["x"])));
    assert!(should_auto_apply(&finding(ErrorType::Grammar, 95, Severity::Info, &["x"])));
    assert!(should_auto_apply(&finding(ErrorType::Redundancy, 90, Severity::Info, &["x"])));
    assert!(!should_auto_apply(&finding(ErrorType::Other, 94, Severity::Info, &["x"])));
}

#[test]
fn high_confidence_policy_rules() {
    assert!(is_safe_to_auto_correct(&finding(ErrorType::Spelling, 10, Severity::Error, &["x"])));
    assert!(!is_safe_to_auto_correct(&finding(ErrorType::Spelling, 10, Severity::Warning, &["x"])));
    assert!(!is_safe_to_auto_correct(&finding(ErrorType::Grammar, 100, Severity::Error, &["x"])));
    let fs = vec![
        finding(ErrorType::Spelling, 95, Severity::Error, &["a"]),
        finding(ErrorType::Spelling, 85, Severity::Error, &["b"]),
        finding(ErrorType::Style, 100, Severity::Error, &["c"]),
    ];
    let e = plan_high_confidence(&fs, 90, false);
    assert_eq!(e.len(), 1);
    assert_eq!(e[0].replacement, "a");
}

#[test]
fn best_suggestion_prefers_short_replacements() {
    let f = finding(ErrorType::Spelling, 95, Severity::Error, &["a much too long replacement", "ok"]);
    assert_eq!(get_best_suggestion(&f, true), Some("ok".to_string()));
    assert_eq!(get_best_suggestion(&f, false), Some("a much too long replacement".to_string()));
    let g = finding(ErrorType::Spelling, 95, Severity::Error, &["a much too long replacement"]);
    assert_eq!(get_best_suggestion(&g, true), None);
    let h = finding(ErrorType::Spelling, 95, Severity::Error, &[]);
    assert_eq!(get_best_suggestion(&h, false), None);
}

#[test]
fn severity_priorities() {
    assert_eq!(severity_priority(Severity::Error), 3);
    assert_eq!(severity_priority(Severity::Warning), 2);
    assert_eq!(severity_priority(Severity::Info), 1);
}

#[test]
fn ties_ordered_by_confidence_then_severity() {
    let mut a = finding(ErrorType::Spelling, 90, Severity::Info, &["AAA"]);
    let mut b = finding(ErrorType::Spelling, 90, Severity::Error, &["B"]);
    a.offset = 0;
    b.offset = 0;
    let edits = plan_explicit(&vec![a, b], &vec![0, 1]);
    assert!(edits[1].rank > edits[0].rank);
    let ordered = order_edits(&edits);
    assert_eq!(ordered[0].replacement, "B");
    assert_eq!(ordered[1].replacement, "AAA");
    let later = edit(5, 1, "z");
    let ordered2 = order_edits(&vec![edit(0, 1, "q"), later]);
    assert_eq!(ordered2[0].offset, 5);
}

#[test]
fn explicit_plan_ignores_bad_indices() {
    let fs = vec![finding(ErrorType::Grammar, 10, Severity::Info, &["g"]), finding(ErrorType::Other, 10, Severity::Info, &[])];
    let e = plan_explicit(&fs, &vec![5, 1, 0, 0]);
    assert_eq!(e.len(), 1);
    assert_eq!(e[0].replacement, "g");
}
