use proofread::finding::{ErrorType, Severity};
use proofread::patterns::check_basic_patterns;

#[test]
fn double_space_first_occurrence_only() {
    let f = check_basic_patterns("a  b  c");
    let ds: Vec<_> = f.iter().filter(|x| x.rule_id == "DOUBLE_SPACE").collect();
    assert_eq!(ds.len(), 1);
    assert_eq!((ds[0].offset, ds[0].length), (1, 2));
    assert_eq!(ds[0].error_type, ErrorType::Style);
    assert_eq!(ds[0].category, "Whitespace");
    assert_eq!(ds[0].suggestions, vec![" ".to_string()]);
}

#[test]
fn lowercase_sentence_start() {
    let f = check_basic_patterns("hello. world!   again? Yes");
    let caps: Vec<_> = f.iter().filter(|x| x.error_type == ErrorType::Grammar).collect();
    assert_eq!(caps.len(), 2);
    assert_eq!((caps[0].offset, caps[0].length), (7, 1));
    assert_eq!(caps[0].suggestions, vec!["W".to_string()]);
    assert_eq!((caps[1].offset, caps[1].suggestions[0].as_str()), (16, "A"));
    assert_eq!(caps[0].severity, Severity::Warning);
}

#[test]
fn space_before_each_mark() {
    let f = check_basic_patterns("a , b ; c . d , e");
    let p: Vec<(usize, String)> = f
        .iter()
        .filter(|x| x.error_type == ErrorType::Punctuation)
        .map(|x| (x.offset, x.suggestions[0].clone()))
        .collect();
    assert_eq!(p, vec![(1, ",".to_string()), (9, ".".to_string()), (5, ";".to_string())]);
}

#[test]
fn misspelling_table_strips_and_lowercases() {
    let f = check_basic_patterns("(Teh) wich, \u{e9}adn");
    let s: Vec<(usize, usize, String)> = f
        .iter()
        .filter(|x| x.error_type == ErrorType::Spelling)
        .map(|x| (x.offset, x.length, x.suggestions[0].clone()))
        .collect();
    assert_eq!(s, vec![(1, 3, "the".to_string()), (6, 4, "which".to_string())]);
    assert!(f.iter().all(|x| x.category == "Spelling" || x.error_type != ErrorType::Spelling));
    assert!(f.iter().all(|x| x.confidence <= 100));
}

#[test]
fn clean_text_has_no_findings() {
    assert!(check_basic_patterns("The cat sat. It purred!").is_empty());
    assert!(check_basic_patterns("").is_empty());
}

#[test]
fn context_surrounds_span() {
    let f = check_basic_patterns("x  y");
    assert_eq!(f[0].context, "x  y");
}

#[test]
fn unicode_letters_and_spaces() {
    let f = check_basic_patterns("x\u{a0}teh caf\u{e9}. \u{e9}t\u{e9}!\u{a0}\u{e0} TEH\u{e9}");
    let s: Vec<(usize, usize, String)> = f
        .iter()
        .filter(|x| x.error_type == ErrorType::Spelling)
        .map(|x| (x.offset, x.length, x.suggestions[0].clone()))
        .collect();
    assert_eq!(s, vec![(3, 3, "the".to_string())]);
    let caps: Vec<(usize, usize, String)> = f
        .iter()
        .filter(|x| x.error_type == ErrorType::Grammar)
        .map(|x| (x.offset, x.length, x.suggestions[0].clone()))
        .collect();
    assert_eq!(caps, vec![(14, 2, "\u{c9}".to_string()), (22, 2, "\u{c0}".to_string())]);
    assert_eq!(caps[0].0, "x\u{a0}teh caf\u{e9}. ".len());
}

#[test]
fn categories_messages_and_context() {
    let f = check_basic_patterns("a  b");
    assert_eq!(f[0].category, "Whitespace");
    assert_eq!(f[0].message, "Multiple consecutive spaces found");
    let g = check_basic_patterns("teh , end");
    let p = g.iter().find(|x| x.error_type == ErrorType::Punctuation).unwrap();
    assert_eq!(p.category, "Punctuation");
    assert_eq!(p.context, "teh , end");
    let long = format!("{}\u{e9}{}  {}", "a".repeat(48), "b".repeat(49), "c".repeat(60));
    let d = check_basic_patterns(&long);
    let ds = d.iter().find(|x| x.rule_id == "DOUBLE_SPACE").unwrap();
    assert_eq!(ds.offset, 99);
    assert_eq!(ds.context, format!("{}  {}", "b".repeat(49), "c".repeat(50)));
}

#[test]
fn equal_text_equal_findings() {
    let a = check_basic_patterns("Hi. teh  dog ;");
    let b = check_basic_patterns("Hi. teh  dog ;");
    assert_eq!(a.len(), b.len());
    for (x, y) in a.iter().zip(b.iter()) {
        assert_eq!((x.offset, x.length, &x.message, &x.category, &x.context), (y.offset, y.length, &y.message, &y.category, &y.context));
    }
}
