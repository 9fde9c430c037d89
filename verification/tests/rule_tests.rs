use rwm::rule::{apply_rules, Pattern, Rule};

#[test]
fn test_pattern_literal() {
    let p = Pattern::literal("foot");
    assert!(p.matches("foot"));
    assert!(!p.matches("foot2"));
    assert!(!p.matches("Foot"));
}

#[test]
fn test_pattern_regex() {
    let p = Pattern::regex(".*[tT]ouchpad").unwrap();
    assert!(p.matches("My Touchpad"));
    assert!(p.matches("Xtouchpad"));
    assert!(!p.matches("Mouse"));
}

#[test]
fn test_rule_matching() {
    let rule = Rule { app_id: Some("foot".to_string()), is_terminal: Some(true), ..Default::default() };

    assert!(rule.matches(Some("foot"), None));
    assert!(rule.matches(Some("foot"), Some("Terminal")));
    assert!(!rule.matches(Some("chromium"), None));
}

#[test]
fn test_apply_rules() {
    let rules = vec![
        Rule { app_id: Some("foot".to_string()), is_terminal: Some(true), ..Default::default() },
        Rule { app_id: Some("chromium".to_string()), tag: Some(1 << 1), ..Default::default() },
    ];

    let applied = apply_rules(&rules, Some("foot"), None);
    assert_eq!(applied.is_terminal, Some(true));

    let applied = apply_rules(&rules, Some("chromium"), None);
    assert_eq!(applied.tag, Some(1 << 1));
    assert!(applied.is_terminal.is_none());
}
