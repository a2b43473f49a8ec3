//! The commands and the pipeline: listing, piping, the confirmation gate,
//! sorting, help, and the wiki plan.

use reason::cmd::{current, ls, man, mark, sort, unmark, vimwiki};
use reason::error::Fallacy;
use reason::paper::{Paper, PaperList, PaperStatus};
use reason::pipeline::{run_line, LineOutcome};
use reason::state::{CommandInput, CommandOutput, Config, State};

fn s(x: &str) -> String {
    x.to_string()
}

fn paper(title: &str, author: &str, venue: &str, year: &str) -> Paper {
    let args = vec![s(title), s("by"), s(author), s("at"), s(venue), s("in"), s(year)];
    match Paper::from_args(&args) {
        Ok(p) => p,
        Err(_) => panic!("the sample build must succeed"),
    }
}

fn sample_state() -> State {
    State {
        papers: vec![
            paper("Paxos Made Simple", "Lamport", "SIGACT", "2001"),
            paper("Raft In Search", "Ongaro", "ATC", "2014"),
            paper("Calvin", "Thomson", "SIGMOD", "2012"),
        ],
    }
}

fn config() -> Config {
    Config {
        wiki_dir: s("/wiki"),
        note_dir: s("/notes"),
        editor_command: vec![s("vim")],
        editor_batch: false,
    }
}

fn input(args: Vec<String>, papers: Option<PaperList>) -> CommandInput {
    CommandInput { args, papers }
}

#[test]
fn ls_selects_matching_papers() {
    let mut st = sample_state();
    let cfg = config();
    let r = ls::execute(input(vec![s("ls"), s("in"), s("201")], None), &mut st, &cfg);
    match r {
        Ok(CommandOutput::Papers(pl)) => assert_eq!(pl.0, vec![1, 2]),
        _ => panic!("ls must return a paper list"),
    }
}

#[test]
fn ls_without_filter_lists_all() {
    let mut st = sample_state();
    let cfg = config();
    match ls::execute(input(vec![s("ls")], None), &mut st, &cfg) {
        Ok(CommandOutput::Papers(pl)) => assert_eq!(pl.0, vec![0, 1, 2]),
        _ => panic!("ls must return a paper list"),
    }
}

#[test]
fn ls_filters_a_piped_selection() {
    let mut st = sample_state();
    let cfg = config();
    let piped = Some(PaperList(vec![0, 2]));
    match ls::execute(input(vec![s("ls"), s("in"), s("201")], piped), &mut st, &cfg) {
        Ok(CommandOutput::Papers(pl)) => assert_eq!(pl.0, vec![2]),
        _ => panic!("ls must return a paper list"),
    }
}

#[test]
fn declined_confirmation_changes_no_paper() {
    let mut st = sample_state();
    let cfg = config();
    let piped = Some(PaperList(vec![0, 1, 2]));
    let r = mark::execute(input(vec![s("mark")], piped), &mut st, &cfg, false);
    assert!(matches!(r, Err(Fallacy::Cancelled)));
    for p in &st.papers {
        assert!(matches!(p.progress, PaperStatus::Unread));
    }
}

#[test]
fn single_paper_marks_without_prompting() {
    let mut st = sample_state();
    let cfg = config();
    let piped = Some(PaperList(vec![1]));
    // With one selected paper the answer is never consulted.
    let r = mark::execute(input(vec![s("mark")], piped), &mut st, &cfg, false);
    match r {
        Ok(CommandOutput::Message(m)) => assert_eq!(m, "Marked 1 paper as finished.\n"),
        _ => panic!("a single-paper mark must succeed without prompting"),
    }
    assert!(matches!(st.papers[1].progress, PaperStatus::Read));
    assert!(matches!(st.papers[0].progress, PaperStatus::Unread));
    assert!(matches!(st.papers[2].progress, PaperStatus::Unread));
}

#[test]
fn approved_confirmation_marks_all_selected() {
    let mut st = sample_state();
    let cfg = config();
    let piped = Some(PaperList(vec![0, 2]));
    let r = mark::execute(input(vec![s("mark")], piped), &mut st, &cfg, true);
    match r {
        Ok(CommandOutput::Message(m)) => assert_eq!(m, "Marked 2 papers as finished.\n"),
        _ => panic!("an approved mark must succeed"),
    }
    assert!(matches!(st.papers[0].progress, PaperStatus::Read));
    assert!(matches!(st.papers[1].progress, PaperStatus::Unread));
    assert!(matches!(st.papers[2].progress, PaperStatus::Read));
}

#[test]
fn unmark_and_current_set_their_statuses() {
    let mut st = sample_state();
    let cfg = config();
    let r = current::execute(input(vec![s("current")], Some(PaperList(vec![0]))), &mut st, &cfg, true);
    assert!(r.is_ok());
    assert!(matches!(st.papers[0].progress, PaperStatus::InProgress));
    let r = unmark::execute(input(vec![s("unmark")], Some(PaperList(vec![0]))), &mut st, &cfg, true);
    assert!(r.is_ok());
    assert!(matches!(st.papers[0].progress, PaperStatus::Unread));
}

#[test]
fn pipeline_multi_element_mark_asks_then_declines() {
    let mut st = sample_state();
    let cfg = config();
    let tokens = vec![s("ls"), s("in"), s("201"), s("|"), s("mark")];
    // Asked first: the line suspends without touching anything.
    match run_line(&tokens, &mut st, &cfg, None) {
        Ok(LineOutcome::NeedsConfirmation(prompt, default)) => {
            assert_eq!(prompt, "Mark 2 papers as read?");
            assert!(!default);
        },
        _ => panic!("a multi-paper mark must ask first"),
    }
    for p in &st.papers {
        assert!(matches!(p.progress, PaperStatus::Unread));
    }
    // Declined: still no mutation.
    assert!(matches!(run_line(&tokens, &mut st, &cfg, Some(false)), Err(Fallacy::Cancelled)));
    for p in &st.papers {
        assert!(matches!(p.progress, PaperStatus::Unread));
    }
}

#[test]
fn pipeline_single_element_mark_needs_no_prompt() {
    let mut st = sample_state();
    let cfg = config();
    let tokens = vec![s("ls"), s("Calvin"), s("|"), s("mark")];
    match run_line(&tokens, &mut st, &cfg, None) {
        Ok(LineOutcome::Done(CommandOutput::Message(m), _)) => {
            assert_eq!(m, "Marked 1 paper as finished.\n");
        },
        _ => panic!("a single-paper mark must run without a prompt"),
    }
    assert!(matches!(st.papers[2].progress, PaperStatus::Read));
    assert!(matches!(st.papers[0].progress, PaperStatus::Unread));
}

#[test]
fn pipeline_rejects_unknown_command_and_bad_pipe() {
    let mut st = sample_state();
    let cfg = config();
    match run_line(&vec![s("frobnicate")], &mut st, &cfg, None) {
        Err(Fallacy::UnknownCommand(n)) => assert_eq!(n, "frobnicate"),
        _ => panic!("an unknown name must be rejected"),
    }
    let tokens = vec![s("man"), s("ls"), s("|"), s("sort")];
    assert!(matches!(run_line(&tokens, &mut st, &cfg, None), Err(Fallacy::InvalidCommand(_))));
}

#[test]
fn sort_orders_by_title() {
    let mut st = sample_state();
    let cfg = config();
    let piped = Some(PaperList(vec![0, 1, 2]));
    match sort::execute(input(vec![s("sort")], piped), &mut st, &cfg) {
        Ok(CommandOutput::Papers(pl)) => assert_eq!(pl.0, vec![2, 0, 1]),
        _ => panic!("sort must return a paper list"),
    }
}

#[test]
fn sort_drops_duplicate_indices() {
    let mut st = sample_state();
    let cfg = config();
    let piped = Some(PaperList(vec![1, 1, 0]));
    match sort::execute(input(vec![s("sort")], piped), &mut st, &cfg) {
        Ok(CommandOutput::Papers(pl)) => assert_eq!(pl.0, vec![0, 1]),
        _ => panic!("sort must return a paper list"),
    }
}

#[test]
fn sort_by_status_keeps_matching_papers() {
    let mut st = sample_state();
    let cfg = config();
    st.papers[1].progress = PaperStatus::Read;
    let piped = Some(PaperList(vec![0, 1, 2]));
    match sort::execute(input(vec![s("sort"), s("by"), s("read")], piped), &mut st, &cfg) {
        Ok(CommandOutput::Papers(pl)) => assert_eq!(pl.0, vec![1]),
        _ => panic!("sort by status must return a paper list"),
    }
    let piped = Some(PaperList(vec![0, 1, 2]));
    match sort::execute(input(vec![s("sort"), s("by"), s("unread")], piped), &mut st, &cfg) {
        Ok(CommandOutput::Papers(pl)) => assert_eq!(pl.0, vec![0, 2]),
        _ => panic!("sort by status must return a paper list"),
    }
}

#[test]
fn sort_needs_a_piped_list() {
    let mut st = sample_state();
    let cfg = config();
    assert!(matches!(
        sort::execute(input(vec![s("sort")], None), &mut st, &cfg),
        Err(Fallacy::SetNoPapers)
    ));
}

#[test]
fn sort_rejects_unknown_status() {
    let mut st = sample_state();
    let cfg = config();
    let piped = Some(PaperList(vec![0]));
    match sort::execute(input(vec![s("sort"), s("by"), s("skimmed")], piped), &mut st, &cfg) {
        Err(Fallacy::InvalidCommand(w)) => assert_eq!(w, "skimmed"),
        _ => panic!("an unknown status word must be rejected"),
    }
}

#[test]
fn man_returns_help_text() {
    let mut st = sample_state();
    let cfg = config();
    match man::execute(input(vec![s("man"), s("ls")], None), &mut st, &cfg) {
        Ok(CommandOutput::Message(m)) => assert!(m.contains("list the papers")),
        _ => panic!("man must return the help text"),
    }
}

#[test]
fn man_rejects_bad_arity_and_unknown_subject() {
    let mut st = sample_state();
    let cfg = config();
    assert!(matches!(
        man::execute(input(vec![s("man")], None), &mut st, &cfg),
        Err(Fallacy::ManInvalidArgument)
    ));
    match man::execute(input(vec![s("man"), s("nonsense")], None), &mut st, &cfg) {
        Err(Fallacy::ManUnknownSubject(sub)) => assert_eq!(sub, "nonsense"),
        _ => panic!("an unknown subject must be rejected"),
    }
}

#[test]
fn vimwiki_plans_paths_and_touches_papers() {
    let mut st = sample_state();
    let cfg = config();
    st.papers[0].wikipath = Some(s("paxos.md"));
    let piped = Some(PaperList(vec![0, 1]));
    let r = vimwiki::execute(input(vec![s("vimwiki")], piped), &mut st, &cfg, true);
    match r {
        Ok((CommandOutput::Empty, plan)) => {
            assert_eq!(plan.wikis, vec![s("/wiki/paxos.md"), s("/wiki/Raft In Search.md")]);
            assert!(!plan.batch);
        },
        _ => panic!("vimwiki must return the editor plan"),
    }
    // The paper without a wiki page got one, and became currently reading.
    assert_eq!(st.papers[1].wikipath.as_deref(), Some("Raft In Search.md"));
    assert!(matches!(st.papers[1].progress, PaperStatus::InProgress));
    // The paper that already had one is untouched.
    assert!(matches!(st.papers[0].progress, PaperStatus::Unread));
}

#[test]
fn vimwiki_declined_touches_nothing() {
    let mut st = sample_state();
    let cfg = config();
    let piped = Some(PaperList(vec![0, 1]));
    let r = vimwiki::execute(input(vec![s("vimwiki")], piped), &mut st, &cfg, false);
    assert!(matches!(r, Err(Fallacy::Cancelled)));
    assert!(st.papers[0].wikipath.is_none());
    assert!(st.papers[1].wikipath.is_none());
}

#[test]
fn pipeline_chains_three_segments() {
    let mut st = sample_state();
    let cfg = config();
    let tokens = vec![s("ls"), s("|"), s("sort"), s("|"), s("mark")];
    match run_line(&tokens, &mut st, &cfg, None) {
        Ok(LineOutcome::NeedsConfirmation(prompt, _)) => {
            assert_eq!(prompt, "Mark 3 papers as read?");
        },
        _ => panic!("a three-paper mark must ask first"),
    }
    match run_line(&tokens, &mut st, &cfg, Some(true)) {
        Ok(LineOutcome::Done(CommandOutput::Message(m), _)) => {
            assert_eq!(m, "Marked 3 papers as finished.\n");
        },
        _ => panic!("an approved mark must run"),
    }
    for p in &st.papers {
        assert!(matches!(p.progress, PaperStatus::Read));
    }
}

#[test]
fn pipeline_rejects_empty_segment() {
    let mut st = sample_state();
    let cfg = config();
    let tokens = vec![s("ls"), s("|"), s("|"), s("mark")];
    assert!(matches!(run_line(&tokens, &mut st, &cfg, None), Err(Fallacy::InvalidCommand(_))));
}

#[test]
fn ls_drops_out_of_range_indices() {
    let mut st = sample_state();
    let cfg = config();
    let piped = Some(PaperList(vec![1, 99]));
    match ls::execute(input(vec![s("ls")], piped), &mut st, &cfg) {
        Ok(CommandOutput::Papers(pl)) => assert_eq!(pl.0, vec![1]),
        _ => panic!("ls must return a paper list"),
    }
}

#[test]
fn sort_with_two_arguments_yields_nothing() {
    let mut st = sample_state();
    let cfg = config();
    let piped = Some(PaperList(vec![0, 1]));
    match sort::execute(input(vec![s("sort"), s("by")], piped), &mut st, &cfg) {
        Ok(CommandOutput::Papers(pl)) => assert!(pl.0.is_empty()),
        _ => panic!("sort must return a paper list"),
    }
}

#[test]
fn vimwiki_batch_flag_follows_config() {
    let mut st = sample_state();
    let mut cfg = config();
    cfg.editor_batch = true;
    let piped = Some(PaperList(vec![0]));
    match vimwiki::execute(input(vec![s("vimwiki")], piped), &mut st, &cfg, true) {
        Ok((_, plan)) => assert!(plan.batch),
        _ => panic!("vimwiki must return the editor plan"),
    }
}

#[test]
fn mid_line_mark_marks_then_fails_the_pipe() {
    let mut st = sample_state();
    let cfg = config();
    // The single-paper mark runs without a prompt; its message cannot be
    // piped on, so the line fails -- with the mark already applied.
    let tokens = vec![s("ls"), s("Calvin"), s("|"), s("mark"), s("|"), s("sort")];
    assert!(matches!(run_line(&tokens, &mut st, &cfg, None), Err(Fallacy::InvalidCommand(_))));
    assert!(matches!(st.papers[2].progress, PaperStatus::Read));
    assert!(matches!(st.papers[0].progress, PaperStatus::Unread));
}
