//! Shows the help text for one subject: a command name or one of the
//! built-in topics. Takes exactly one argument.

use vstd::prelude::*;
use vstd::string::StringExecFns;
use crate::error::Fallacy;
use crate::state::{CommandInput, CommandOutput, Config, State};
use crate::strutil::str_eq;

verus! {

/// The help text each subject resolves to, if the subject is known.
pub open spec fn man_text(subj: Seq<char>) -> Option<Seq<char>> {
    if subj == "command"@ {
        Some("Commands take keyword-tagged arguments and can be piped with |.\n"@)
    } else if subj == "config"@ {
        Some("Configuration supplies storage paths and the editor command.\n"@)
    } else if subj == "filter"@ {
        Some("Filters: as NICK, by AUTHOR, by1 FIRST, at|on VENUE, in YEAR; bare tokens match the title.\n"@)
    } else if subj == "paper"@ {
        Some("Papers: TITLE by AUTHORS at VENUE in YEAR, with as NICK, @ FILE, is LABELS.\n"@)
    } else if subj == "ls"@ {
        Some("ls FILTER: list the papers matching the filter.\n"@)
    } else if subj == "man"@ {
        Some("man SUBJECT: show the help text for one subject.\n"@)
    } else if subj == "mark"@ {
        Some("mark FILTER: mark the selected papers as finished.\n"@)
    } else if subj == "unmark"@ {
        Some("unmark FILTER: mark the selected papers as unread.\n"@)
    } else if subj == "current"@ {
        Some("current FILTER: mark the selected papers as currently reading.\n"@)
    } else if subj == "sort"@ {
        Some("sort [by STATUS]: sort the piped papers by title, or keep one reading status.\n"@)
    } else if subj == "vimwiki"@ {
        Some("vimwiki FILTER: open the wiki page of each selected paper.\n"@)
    } else {
        None
    }
}

/// Resolves the single argument to a help text. Fails with an
/// invalid-argument error unless exactly one subject is given, and with an
/// unknown-subject error naming the subject when it is not known. The store
/// is never changed.
pub fn execute(input: CommandInput, state: &mut State, config: &Config) -> (r: Result<
    CommandOutput,
    Fallacy,
>)
    ensures
        final(state)@ == old(state)@,
        match r {
            Ok(out) => out matches CommandOutput::Message(m) && input.args.deep_view().len() == 2
                && man_text(input.args.deep_view()[1]) == Some(m@),
            Err(e) => match e {
                Fallacy::ManInvalidArgument => input.args.deep_view().len() != 2,
                Fallacy::ManUnknownSubject(s) => input.args.deep_view().len() == 2 && s@
                    == input.args.deep_view()[1] && man_text(s@) is None,
                _ => false,
            },
        },
{
    if input.args.len() != 2 {
        return Err(Fallacy::ManInvalidArgument);
    }
    let subj = &input.args[1];
    proof {
        assert(input.args.deep_view()[1] == input.args[1]@);
    }
    let text: Option<&str> = if str_eq(subj, "command") {
        Some("Commands take keyword-tagged arguments and can be piped with |.\n")
    } else if str_eq(subj, "config") {
        Some("Configuration supplies storage paths and the editor command.\n")
    } else if str_eq(subj, "filter") {
        Some(
            "Filters: as NICK, by AUTHOR, by1 FIRST, at|on VENUE, in YEAR; bare tokens match the title.\n",
        )
    } else if str_eq(subj, "paper") {
        Some("Papers: TITLE by AUTHORS at VENUE in YEAR, with as NICK, @ FILE, is LABELS.\n")
    } else if str_eq(subj, "ls") {
        Some("ls FILTER: list the papers matching the filter.\n")
    } else if str_eq(subj, "man") {
        Some("man SUBJECT: show the help text for one subject.\n")
    } else if str_eq(subj, "mark") {
        Some("mark FILTER: mark the selected papers as finished.\n")
    } else if str_eq(subj, "unmark") {
        Some("unmark FILTER: mark the selected papers as unread.\n")
    } else if str_eq(subj, "current") {
        Some("current FILTER: mark the selected papers as currently reading.\n")
    } else if str_eq(subj, "sort") {
        Some("sort [by STATUS]: sort the piped papers by title, or keep one reading status.\n")
    } else if str_eq(subj, "vimwiki") {
        Some("vimwiki FILTER: open the wiki page of each selected paper.\n")
    } else {
        None
    };
    match text {
        Some(t) => Ok(CommandOutput::Message(String::from_str(t))),
        None => Err(Fallacy::ManUnknownSubject(subj.clone())),
    }
}

} // verus!
