//! The record updater: partial updates, label algebra, and the no-op
//! round trip.

use reason::error::Fallacy;
use reason::paper::Paper;

fn s(x: &str) -> String {
    x.to_string()
}

fn sample_paper() -> Paper {
    let args = vec![
        s("Old Title"),
        s("by"),
        s("Grace Hopper"),
        s("at"),
        s("CACM"),
        s("in"),
        s("1952"),
    ];
    match Paper::from_args(&args) {
        Ok(p) => p,
        Err(_) => panic!("the sample build must succeed"),
    }
}

#[test]
fn add_then_remove_label_in_one_call() {
    let mut p = sample_paper();
    let args = vec![s("is"), s("a,b"), s("not"), s("a")];
    assert!(p.apply_from_args(&args).is_ok());
    assert_eq!(p.labels, vec![s("b")]);
}

#[test]
fn noop_update_keeps_title_and_authors() {
    let mut p = sample_paper();
    let args: Vec<String> = Vec::new();
    assert!(p.apply_from_args(&args).is_ok());
    assert_eq!(p.title, "Old Title");
    assert_eq!(p.authors, vec![s("Grace Hopper")]);
    assert_eq!(p.venue, "CACM");
    assert_eq!(p.year, "1952");
    assert!(p.labels.is_empty());
}

#[test]
fn free_text_update_changes_exactly_the_title() {
    let mut p = sample_paper();
    let args = vec![s("New Title")];
    assert!(p.apply_from_args(&args).is_ok());
    assert_eq!(p.title, "New Title");
    assert_eq!(p.authors, vec![s("Grace Hopper")]);
    assert_eq!(p.venue, "CACM");
    assert_eq!(p.year, "1952");
}

#[test]
fn update_fields_apply_in_order() {
    let mut p = sample_paper();
    let args = vec![
        s("as"),
        s("hop"),
        s("by"),
        s("Hopper, Mauchly"),
        s("at"),
        s("JACM"),
        s("in"),
        s("1953"),
    ];
    assert!(p.apply_from_args(&args).is_ok());
    assert_eq!(p.nickname.as_deref(), Some("hop"));
    assert_eq!(p.authors, vec![s("Hopper"), s("Mauchly")]);
    assert_eq!(p.venue, "JACM");
    assert_eq!(p.year, "1953");
    assert_eq!(p.title, "Old Title");
}

#[test]
fn update_duplicate_keyword_changes_nothing() {
    let mut p = sample_paper();
    let args = vec![s("as"), s("x"), s("as"), s("y")];
    match p.apply_from_args(&args) {
        Err(Fallacy::PaperDuplicateField(k)) => assert_eq!(k, "as"),
        _ => panic!("a repeated keyword must fail the update"),
    }
    assert!(p.nickname.is_none());
    assert_eq!(p.title, "Old Title");
}

#[test]
fn update_rejects_empty_author_list() {
    let mut p = sample_paper();
    let args = vec![s("by"), s(" , ,")];
    match p.apply_from_args(&args) {
        Err(Fallacy::PaperMissingFields(msg)) => assert_eq!(msg, "authors"),
        _ => panic!("an update emptying the authors must be rejected"),
    }
    assert_eq!(p.authors, vec![s("Grace Hopper")]);
}

#[test]
fn labels_keep_one_copy_of_each_name() {
    let mut p = sample_paper();
    assert!(p.apply_from_args(&vec![s("is"), s("x,y")]).is_ok());
    assert!(p.apply_from_args(&vec![s("is"), s("y,z")]).is_ok());
    assert_eq!(p.labels, vec![s("x"), s("y"), s("z")]);
}
