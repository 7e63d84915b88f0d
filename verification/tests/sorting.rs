use afm::sorting::{choose_rule, sort_target, split_rule, SortError};

fn rules(list: &[&str]) -> Vec<String> {
    list.iter().map(|s| s.to_string()).collect()
}

#[test]
fn first_fitting_rule_decides() {
    let rules = rules(&["*.pdf=/docs", "*.p*=/other"]);
    assert_eq!(sort_target("a.pdf", &rules).unwrap(), Some("/docs".to_string()));
    assert_eq!(sort_target("a.png", &rules).unwrap(), Some("/other".to_string()));
    assert_eq!(sort_target("a.txt", &rules).unwrap(), None);
}

#[test]
fn later_rules_do_not_matter() {
    let rules = rules(&["*=/all", "no equals sign", "***=/bad"]);
    assert_eq!(sort_target("a.pdf", &rules).unwrap(), Some("/all".to_string()));
}

#[test]
fn literal_pattern_fits_its_own_name_only() {
    let rules = rules(&["todo.txt=/lists"]);
    assert_eq!(sort_target("todo.txt", &rules).unwrap(), Some("/lists".to_string()));
    assert_eq!(sort_target("Todo.txt", &rules).unwrap(), None);
    assert_eq!(sort_target("todo.txt2", &rules).unwrap(), None);
}

#[test]
fn ending_pattern_fits_names_that_end_so() {
    let rules = rules(&["*.tar.gz=/archives"]);
    assert_eq!(sort_target(".tar.gz", &rules).unwrap(), Some("/archives".to_string()));
    assert_eq!(sort_target("a.tar.tar.gz", &rules).unwrap(), Some("/archives".to_string()));
    assert_eq!(sort_target("a.gz", &rules).unwrap(), None);
}

#[test]
fn name_with_a_backslash_is_an_ordinary_name() {
    let rules = rules(&["*.pdf=/docs", "**=/rest"]);
    assert_eq!(sort_target("a\\b.pdf", &rules).unwrap(), Some("/docs".to_string()));
    assert_eq!(sort_target("a\\b", &rules).unwrap(), Some("/rest".to_string()));
}

#[test]
fn special_characters_have_their_meaning() {
    let rules = rules(&["c?t=/animals", "[0-9]*=/numbers"]);
    assert_eq!(sort_target("cat", &rules).unwrap(), Some("/animals".to_string()));
    assert_eq!(sort_target("7up", &rules).unwrap(), Some("/numbers".to_string()));
    assert_eq!(sort_target("dog", &rules).unwrap(), None);
}

#[test]
fn rule_without_equals_sign_is_an_error() {
    let error = sort_target("a.pdf", &rules(&["*.pdf"])).unwrap_err();
    assert!(matches!(error, SortError::BadRule(_)));
    assert_eq!(error.message(), "invalid rule *.pdf, expected pattern=destination");
}

#[test]
fn wrong_pattern_is_an_error() {
    let error = sort_target("a.pdf", &rules(&["a[=/x"])).unwrap_err();
    assert!(matches!(error, SortError::BadPattern { pos: 1, .. }));
    assert_eq!(error.message(), "Pattern syntax error near position 1: invalid range pattern");
}

#[test]
fn wrong_pattern_comes_before_a_later_fit() {
    let error = sort_target("a.pdf", &rules(&["***=/x", "*=/y"])).unwrap_err();
    assert_eq!(
        error.message(),
        "Pattern syntax error near position 2: wildcards are either regular `*` or recursive `**`"
    );
}

#[test]
fn rule_is_split_at_its_first_equals_sign() {
    assert_eq!(split_rule("*.a=b=c"), Some(("*.a".to_string(), "b=c".to_string())));
    assert_eq!(split_rule("="), Some((String::new(), String::new())));
    assert_eq!(split_rule("abc"), None);
}

#[test]
fn answers_decide_between_rules() {
    let list = rules(&["a=1", "b=2", "c=3"]);
    let answers = vec![Ok(false), Ok(true), Ok(true)];
    assert_eq!(choose_rule(&list, &answers).unwrap(), Some("2".to_string()));
    let answers = vec![Ok(false), Err((4, "odd".to_string())), Ok(true)];
    let error = choose_rule(&list, &answers).unwrap_err();
    assert_eq!(error.message(), "Pattern syntax error near position 4: odd");
    let answers = vec![Ok(false), Ok(false), Ok(false)];
    assert_eq!(choose_rule(&list, &answers).unwrap(), None);
}

#[test]
fn no_rules_leave_the_file() {
    assert_eq!(sort_target("a.pdf", &rules(&[])).unwrap(), None);
}
