use ncpages::gate::{evaluate, Verdict};
use ncpages::config::Gate;

fn judge(gate: &Gate, pages: usize, present: Vec<bool>, prev: Option<usize>, dups: Vec<&str>) -> Verdict {
    let d: Vec<String> = dups.into_iter().map(String::from).collect();
    evaluate(gate, pages, &present, prev, &d)
}

#[test]
fn a_half_synced_vault_does_not_reach_the_live_site() {
    let gate = Gate { max_page_drop_ppm: 400_000, ..Default::default() };
    let verdict = judge(&gate, 3, vec![], Some(46), vec![]);
    assert!(!verdict.passed());
    assert!(verdict.violations[0].contains("dropped"), "{:?}", verdict.violations);
}

#[test]
fn a_normal_edit_passes() {
    let gate = Gate { min_pages: 5, ..Default::default() };
    assert!(judge(&gate, 46, vec![], Some(45), vec![]).passed());
}

#[test]
fn growth_is_never_a_violation() {
    assert!(judge(&Gate::default(), 90, vec![], Some(46), vec![]).passed());
}

#[test]
fn required_files_must_exist() {
    let gate = Gate { require_files: vec!["sitemap.xml".into()], ..Default::default() };
    let verdict = judge(&gate, 10, vec![false], None, vec![]);
    assert!(!verdict.passed());
    assert!(verdict.violations[0].contains("sitemap.xml"));
}

#[test]
fn the_first_build_has_nothing_to_compare_against() {
    assert!(judge(&Gate::default(), 1, vec![], None, vec![]).passed());
}

#[test]
fn the_messages_give_the_numbers() {
    let gate = Gate { min_pages: 10, ..Default::default() };
    let verdict = judge(&gate, 3, vec![], Some(46), vec![]);
    assert_eq!(verdict.pages, 3);
    assert_eq!(verdict.violations.len(), 2);
    assert!(verdict.violations[0].contains('3') && verdict.violations[0].contains("10"), "{:?}", verdict.violations);
    assert!(verdict.violations[1].contains("dropped"), "{:?}", verdict.violations);
}

#[test]
fn duplicate_basenames_warn_or_refuse_as_configured() {
    let strict = Gate::default();
    let verdict = judge(&strict, 10, vec![], None, vec!["note.md"]);
    assert!(!verdict.passed());
    assert!(verdict.violations[0].contains("note.md"));
    let lenient = Gate { forbid_duplicate_basenames: false, ..Default::default() };
    let verdict = judge(&lenient, 10, vec![], None, vec!["note.md"]);
    assert!(verdict.passed());
    assert_eq!(verdict.warnings.len(), 1);
}
