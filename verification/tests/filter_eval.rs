//! Filters: building from arguments, merging, and matching papers.

use reason::error::Fallacy;
use reason::filter::PaperFilter;
use reason::paper::Paper;

fn s(x: &str) -> String {
    x.to_string()
}

fn paper(title: &str, authors: &[&str], venue: &str, year: &str) -> Paper {
    let mut args = vec![s(title), s("by")];
    args.push(authors.join(", "));
    args.push(s("at"));
    args.push(s(venue));
    args.push(s("in"));
    args.push(s(year));
    match Paper::from_args(&args) {
        Ok(p) => p,
        Err(_) => panic!("the sample build must succeed"),
    }
}

#[test]
fn identity_filter_matches_everything() {
    let f = match PaperFilter::from_args(&Vec::new()) {
        Ok(f) => f,
        Err(_) => panic!("the empty filter must build"),
    };
    let p1 = paper("Anything Goes", &["A"], "V", "2000");
    let p2 = paper("", &["B", "C"], "W", "1999");
    assert!(f.matches(&p1));
    assert!(f.matches(&p2));
}

#[test]
fn literal_title_substring_matches() {
    let p = paper("A Study of Things", &["A"], "V", "2000");
    let f = match PaperFilter::from_args(&vec![s("Study of")]) {
        Ok(f) => f,
        Err(_) => panic!("the title filter must build"),
    };
    assert!(f.matches(&p));
}

#[test]
fn absent_literal_pattern_does_not_match() {
    let p = paper("A Study of Things", &["A"], "V", "2000");
    let f = match PaperFilter::from_args(&vec![s("Nowhere")]) {
        Ok(f) => f,
        Err(_) => panic!("the title filter must build"),
    };
    assert!(!f.matches(&p));
}

#[test]
fn fields_combine_conjunctively() {
    let p = paper("Consensus Made Live", &["Leslie Lamport"], "PODC", "2001");
    let both = PaperFilter::from_args(&vec![s("Consensus"), s("by"), s("Lamport")]).ok().unwrap();
    assert!(both.matches(&p));
    let wrong_author =
        PaperFilter::from_args(&vec![s("Consensus"), s("by"), s("Dijkstra")]).ok().unwrap();
    assert!(!wrong_author.matches(&p));
}

#[test]
fn repeated_keywords_are_alternatives() {
    let p = paper("Paxos", &["Lamport"], "TOCS", "1998");
    let f = PaperFilter::from_args(&vec![s("in"), s("1997"), s("in"), s("1998")]).ok().unwrap();
    assert!(f.matches(&p));
}

#[test]
fn first_author_filter_checks_only_the_first() {
    let p = paper("Joint Work", &["First Person", "Second Person"], "V", "2010");
    let hit = PaperFilter::from_args(&vec![s("by1"), s("First")]).ok().unwrap();
    assert!(hit.matches(&p));
    let miss = PaperFilter::from_args(&vec![s("by1"), s("Second")]).ok().unwrap();
    assert!(!miss.matches(&p));
    let any = PaperFilter::from_args(&vec![s("by"), s("Second")]).ok().unwrap();
    assert!(any.matches(&p));
}

#[test]
fn venue_accepts_at_and_on() {
    let p = paper("Title", &["A"], "OSDI", "2020");
    let f1 = PaperFilter::from_args(&vec![s("at"), s("OSDI")]).ok().unwrap();
    let f2 = PaperFilter::from_args(&vec![s("on"), s("OSDI")]).ok().unwrap();
    assert!(f1.matches(&p) && f2.matches(&p));
}

#[test]
fn regex_patterns_search_not_full_match() {
    let p = paper("Deep Blue", &["A"], "V", "1997");
    let f = PaperFilter::from_args(&vec![s("D.ep")]).ok().unwrap();
    assert!(f.matches(&p));
    let anchored = PaperFilter::from_args(&vec![s("^Blue$")]).ok().unwrap();
    assert!(!anchored.matches(&p));
}

#[test]
fn bad_pattern_reports_build_failure() {
    match PaperFilter::from_args(&vec![s("by"), s("(unclosed")]) {
        Err(Fallacy::FilterBuildFailed(msg)) => assert!(!msg.is_empty()),
        _ => panic!("an invalid pattern must fail the build"),
    }
}

#[test]
fn filter_keyword_without_value_fails() {
    match PaperFilter::from_args(&vec![s("by")]) {
        Err(Fallacy::MissingValue(k)) => assert_eq!(k, "by"),
        _ => panic!("a trailing keyword must be a missing-value failure"),
    }
}

#[test]
fn merge_concatenates_fields() {
    let p = paper("Alpha Beta", &["Gamma"], "V", "2000");
    let f1 = PaperFilter::from_args(&vec![s("Alpha")]).ok().unwrap();
    let f2 = PaperFilter::from_args(&vec![s("by"), s("Gamma")]).ok().unwrap();
    let merged = PaperFilter::merge(&vec![f1, f2]);
    assert_eq!(merged.title.len(), 1);
    assert_eq!(merged.author.len(), 1);
    assert!(merged.matches(&p));
}

#[test]
fn equal_bad_patterns_carry_equal_diagnostics() {
    let r1 = PaperFilter::from_args(&vec![s("by"), s("(unclosed")]);
    let r2 = PaperFilter::from_args(&vec![s("by"), s("(unclosed")]);
    match (r1, r2) {
        (Err(Fallacy::FilterBuildFailed(a)), Err(Fallacy::FilterBuildFailed(b))) => {
            assert_eq!(a, b);
        },
        _ => panic!("both builds must fail the same way"),
    }
}
