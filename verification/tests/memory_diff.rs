use scheduler_module::memory_diff::{
    apply_memory_diff, compute_memory_diff, parse_sections, MemoryDiff, SectionChange, SectionChanges,
};

fn diff_of(pairs: Vec<(&str, SectionChange)>) -> MemoryDiff {
    MemoryDiff {
        changed_sections: SectionChanges::from_pairs(pairs.into_iter().map(|(k, v)| (k.to_string(), v)).collect()),
    }
}

#[test]
fn test_compute_diff_added_lines() {
    let original = "# Memo\n\n## Contacts\n- Alice: 555-0000\n\n## Preferences\n";
    let modified = "# Memo\n\n## Contacts\n- Alice: 555-0000\n- Bob: 555-1234\n\n## Preferences\n";
    let diff = compute_memory_diff(original, modified);
    assert!(!diff.is_empty());
    assert!(diff.changed_sections.contains_key("Contacts"));
    if let Some(SectionChange::Added(lines)) = diff.changed_sections.get("Contacts") {
        assert!(lines.iter().any(|l| l.contains("Bob")));
    } else {
        panic!("Expected Added change");
    }
}

#[test]
fn test_compute_diff_new_section() {
    let original = "# Memo\n\n## Profile\n\n## Contacts\n";
    let modified = "# Memo\n\n## Profile\n\n## Contacts\n\n## Projects\n- Project Alpha\n";
    let diff = compute_memory_diff(original, modified);
    assert!(diff.changed_sections.contains_key("Projects"));
    if let Some(SectionChange::NewSection(content)) = diff.changed_sections.get("Projects") {
        assert!(content.contains("Project Alpha"));
    } else {
        panic!("Expected NewSection change");
    }
}

#[test]
fn test_apply_diff_adds_lines() {
    let current = "# Memo\n\n## Contacts\n- Alice: 555-0000\n\n## Preferences\n";
    let diff = diff_of(vec![("Contacts", SectionChange::Added(vec!["- Bob: 555-1234".to_string()]))]);
    let result = apply_memory_diff(current, &diff);
    assert!(result.contains("Alice"));
    assert!(result.contains("Bob"));
}

#[test]
fn test_apply_diff_no_duplicates() {
    let current = "# Memo\n\n## Contacts\n- Alice: 555-0000\n\n";
    let diff = diff_of(vec![("Contacts", SectionChange::Added(vec!["- Alice: 555-0000".to_string()]))]);
    let result = apply_memory_diff(current, &diff);
    assert_eq!(result.matches("Alice").count(), 1);
}

#[test]
fn test_empty_diff() {
    let content = "# Memo\n\n## Contacts\n- Alice: 555-0000\n";
    let diff = compute_memory_diff(content, content);
    assert!(diff.is_empty());
}

#[test]
fn applying_an_added_line_twice_adds_it_once() {
    let current = "# Memo\n\n## Contacts\n- Alice\n";
    let diff = diff_of(vec![("Contacts", SectionChange::Added(vec!["- Bob".to_string()]))]);
    let once = apply_memory_diff(current, &diff);
    let twice = apply_memory_diff(&once, &diff);
    assert_eq!(once, twice);
    assert_eq!(twice.matches("Bob").count(), 1);
}

#[test]
fn applying_an_empty_diff_returns_the_memo() {
    let current = "anything at all\n";
    let diff = compute_memory_diff("same", "same");
    assert_eq!(apply_memory_diff(current, &diff), current);
}

#[test]
fn raw_memos_use_the_raw_key() {
    let diff = compute_memory_diff("line one", "line one\nline two");
    match diff.changed_sections.get("__raw__") {
        Some(SectionChange::Added(lines)) => assert_eq!(lines, &vec!["line two".to_string()]),
        _ => panic!("expected raw additions"),
    }
    let replaced = compute_memory_diff("alpha\nbeta", "alpha");
    assert!(matches!(replaced.changed_sections.get("__raw__"), Some(SectionChange::Replaced(c)) if c == "alpha"));
    let applied = apply_memory_diff("line one", &diff);
    assert_eq!(applied, "line one\nline two");
}

#[test]
fn replaced_and_new_sections_rebuild_the_memo() {
    let diff = diff_of(vec![
        ("Profile", SectionChange::Replaced("- Name: Ann".to_string())),
        ("Projects", SectionChange::NewSection("- Alpha".to_string())),
    ]);
    let result = apply_memory_diff("# Memo\n\n## Profile\n- old\n", &diff);
    assert_eq!(result, "# Memo\n\n## Profile\n- Name: Ann\n\n## Projects\n- Alpha\n\n");
}

#[test]
fn later_pairs_replace_earlier_ones() {
    let changes = SectionChanges::from_pairs(vec![
        ("A".to_string(), SectionChange::Replaced("1".to_string())),
        ("A".to_string(), SectionChange::Replaced("2".to_string())),
    ]);
    assert_eq!(changes.len(), 1);
    assert!(matches!(changes.get("A"), Some(SectionChange::Replaced(c)) if c == "2"));
}

#[test]
fn parses_sections_in_order() {
    let sections = parse_sections("# Memo\n## B\nb1\n## A\na1\na2\n");
    assert_eq!(
        sections,
        vec![("B".to_string(), "b1".to_string()), ("A".to_string(), "a1\na2".to_string())]
    );
}

#[test]
fn applying_added_lines_twice_adds_them_once() {
    let diff = diff_of(vec![("__raw__", SectionChange::Added(vec!["two".to_string(), "  three\r".to_string()]))]);
    let once = apply_memory_diff("note one\r", &diff);
    assert_eq!(once, "note one\r\ntwo\n  three\r");
    assert_eq!(apply_memory_diff(&once, &diff), once);
    let empty_once = apply_memory_diff("", &diff);
    assert_eq!(apply_memory_diff(&empty_once, &diff), empty_once);
}

#[test]
fn applying_an_added_lines_diff_twice_to_a_memo_changes_nothing_more() {
    let memo = "# Memo\n\n## Contacts\n- Alice: 555-0000\n\n## Preferences\nlikes tea";
    let diff = diff_of(vec![
        ("Contacts", SectionChange::Added(vec!["- Bob: 555-1234".to_string()])),
        ("Projects", SectionChange::Added(vec!["- Alpha".to_string(), "- Beta".to_string()])),
    ]);
    let once = apply_memory_diff(memo, &diff);
    assert!(once.contains("- Bob: 555-1234"));
    assert!(once.contains("## Projects\n- Alpha\n- Beta"));
    assert_eq!(apply_memory_diff(&once, &diff), once);
}
