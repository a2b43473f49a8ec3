//! The keyword-argument tokenizer and the record builder.

use reason::error::Fallacy;
use reason::paper::{Paper, PaperStatus};
use reason::tokenize::{tokenize, Grammar};

fn s(x: &str) -> String {
    x.to_string()
}

#[test]
fn tokenize_update_nickname_and_authors() {
    let args = vec![s("as"), s("X"), s("by"), s("Y")];
    let m = match tokenize(Grammar::Update, &args) {
        Ok(m) => m,
        Err(_) => panic!("tokenizing should succeed"),
    };
    assert_eq!(m.nickname.as_deref(), Some("X"));
    assert_eq!(m.authors.as_deref(), Some("Y"));
    assert!(m.title.is_none());
    assert!(m.venue.is_none());
    assert!(m.year.is_none());
    assert!(m.labels_add.is_none());
    assert!(m.labels_remove.is_none());
    let authors = reason::strutil::split_commas("Y");
    assert_eq!(authors, vec![s("Y")]);
}

#[test]
fn tokenize_duplicate_keyword_fails() {
    let args = vec![s("T"), s("by"), s("A"), s("in"), s("2020"), s("by"), s("B")];
    match tokenize(Grammar::Build, &args) {
        Err(Fallacy::PaperDuplicateField(k)) => assert_eq!(k, "by"),
        _ => panic!("a repeated keyword must be a duplicate-field failure"),
    }
}

#[test]
fn tokenize_duplicate_keyword_fails_update_grammar() {
    let args = vec![s("not"), s("a"), s("not"), s("b")];
    match tokenize(Grammar::Update, &args) {
        Err(Fallacy::PaperDuplicateField(k)) => assert_eq!(k, "not"),
        _ => panic!("a repeated keyword must be a duplicate-field failure"),
    }
}

#[test]
fn tokenize_second_free_token_is_title_duplicate() {
    let args = vec![s("one"), s("two")];
    match tokenize(Grammar::Build, &args) {
        Err(Fallacy::PaperDuplicateField(k)) => assert_eq!(k, "title"),
        _ => panic!("a second free token must be a duplicate of the title slot"),
    }
}

#[test]
fn tokenize_keyword_without_value_fails() {
    let args = vec![s("T"), s("as")];
    match tokenize(Grammar::Build, &args) {
        Err(Fallacy::MissingValue(k)) => assert_eq!(k, "as"),
        _ => panic!("a keyword without a value must be a missing-value failure"),
    }
}

#[test]
fn from_args_reports_every_missing_field() {
    let args: Vec<String> = Vec::new();
    match Paper::from_args(&args) {
        Err(Fallacy::PaperMissingFields(msg)) => {
            assert_eq!(msg, "title, authors, venue, year");
        },
        _ => panic!("an empty build must name all four missing fields"),
    }
}

#[test]
fn from_args_reports_missing_fields_partial() {
    let args = vec![s("Some Title"), s("in"), s("2021")];
    match Paper::from_args(&args) {
        Err(Fallacy::PaperMissingFields(msg)) => {
            assert_eq!(msg, "authors, venue");
        },
        _ => panic!("the absent fields must be reported together"),
    }
}

#[test]
fn from_args_builds_complete_paper() {
    let args = vec![
        s("A Study of Things"),
        s("by"),
        s("Ada Lovelace, Alan Turing"),
        s("at"),
        s("SOSP"),
        s("in"),
        s("1950"),
        s("as"),
        s("things"),
        s("is"),
        s("systems, classic, systems"),
    ];
    let p = match Paper::from_args(&args) {
        Ok(p) => p,
        Err(_) => panic!("a complete build must succeed"),
    };
    assert_eq!(p.title, "A Study of Things");
    assert_eq!(p.authors, vec![s("Ada Lovelace"), s("Alan Turing")]);
    assert_eq!(p.venue, "SOSP");
    assert_eq!(p.year, "1950");
    assert_eq!(p.nickname.as_deref(), Some("things"));
    assert_eq!(p.labels, vec![s("systems"), s("classic")]);
    assert!(matches!(p.progress, PaperStatus::Unread));
    assert!(p.filepath.is_none());
    assert!(p.wikipath.is_none());
}

#[test]
fn split_commas_trims_and_drops_empty() {
    let v = reason::strutil::split_commas("  a , ,b,, c  ");
    assert_eq!(v, vec![s("a"), s("b"), s("c")]);
}

#[test]
fn usize_to_string_renders_decimal() {
    assert_eq!(reason::strutil::usize_to_string(0), "0");
    assert_eq!(reason::strutil::usize_to_string(7), "7");
    assert_eq!(reason::strutil::usize_to_string(1203), "1203");
}
