use vstd::prelude::*;
use crate::cli::ServersCommand;
use crate::history::{add_target, list_targets, remove_target, removed, saved, views, ConnectionHistory};
use crate::text::{chars_of, push_str, string_of, trim, trim_chars};

verus! {

/// Success with nothing to print.
pub open spec fn ok_silent(r: Result<Vec<String>, String>) -> bool {
    r matches Ok(lines) && lines@.len() == 0
}

/// Failure with exactly the message `text`.
pub open spec fn fails_with(r: Result<Vec<String>, String>, text: Seq<char>) -> bool {
    r matches Err(m) && m@ == text
}

broadcast use vstd::string::group_string_axioms;

/// Runs a `servers` subcommand on the history. `list` returns the lines to print (the targets);
/// `add` stores the trimmed target, refusing an empty one; `remove` fails when nothing was removed.
pub fn run(command: ServersCommand, history: &mut ConnectionHistory) -> (r: Result<Vec<String>, String>)
    ensures
        match command {
            ServersCommand::List => r matches Ok(lines) && views(lines@) == views(old(history).targets@)
                && *final(history) == *old(history),
            ServersCommand::Add { target } => if trim(target@).len() == 0 {
                fails_with(r, "Target cannot be empty"@) && *final(history) == *old(history)
            } else {
                ok_silent(r) && views(final(history).targets@) == saved(views(old(history).targets@), trim(target@))
            },
            ServersCommand::Remove { target } => {
                &&& views(final(history).targets@) == removed(views(old(history).targets@), target@)
                &&& (final(history).targets@.len() < old(history).targets@.len() ==> ok_silent(r))
                &&& (final(history).targets@.len() >= old(history).targets@.len() ==> fails_with(r, "Target not found: "@ + target@))
            },
        },
{
    match command {
        ServersCommand::List => Ok(list_targets(history)),
        ServersCommand::Add { target } => {
            let chars = chars_of(target.as_str());
            let t = trim_chars(chars.as_slice());
            if t.len() == 0 {
                return Err("Target cannot be empty".to_string());
            }
            let trimmed_target = string_of(&t);
            add_target(history, trimmed_target.as_str());
            Ok(Vec::new())
        },
        ServersCommand::Remove { target } => {
            if !remove_target(history, target.as_str()) {
                let mut v: Vec<char> = Vec::new();
                push_str(&mut v, "Target not found: ");
                push_str(&mut v, target.as_str());
                return Err(string_of(&v));
            }
            Ok(Vec::new())
        },
    }
}

} // verus!
