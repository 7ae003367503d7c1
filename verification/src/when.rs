//! Conditions: what decides whether a task's module runs.

use crate::ferro::{error, Error};
use crate::text::{split_words, strings_view, words};
use vstd::prelude::*;

verus! {

/// A condition. `decides` says which verdicts the condition may give: any
/// verdict, unless the condition says otherwise.
pub trait When {
    open spec fn decides(&self, r: Result<bool, Error>) -> bool {
        true
    }

    fn when(&self) -> (r: Result<bool, Error>)
        ensures
            self.decides(r),
    ;
}

/// The condition that always holds.
#[derive(Debug)]
pub struct Always;

impl When for Always {
    open spec fn decides(&self, r: Result<bool, Error>) -> bool {
        r matches Ok(b) && b
    }

    fn when(&self) -> (r: Result<bool, Error>) {
        Ok(true)
    }
}

/// The condition that never holds.
#[derive(Debug)]
pub struct Never;

impl When for Never {
    open spec fn decides(&self, r: Result<bool, Error>) -> bool {
        r matches Ok(b) && !b
    }

    fn when(&self) -> (r: Result<bool, Error>) {
        Ok(false)
    }
}

/// The condition that holds where an outside command ends well. The command
/// itself is run by whoever holds this value; [`WhenExecute::verdict`] reads
/// what came of it.
#[derive(Debug)]
pub struct WhenExecute {
    pub command: String,
    pub args: Vec<String>,
}

impl WhenExecute {
    /// The verdict that belongs to how the command ended: whether it ended
    /// well, or, where it could not be run at all, a failure with the reason.
    /// Such a failure is an error of the condition, never a plain "no".
    pub fn verdict(ended: Result<bool, String>) -> (r: Result<bool, Error>)
        ensures
            match ended {
                Ok(success) => r matches Ok(b) && b == success,
                Err(reason) => r matches Err(e) && !e.changed && e.description == reason,
            },
    {
        match ended {
            Ok(success) => Ok(success),
            Err(reason) => Err(error(false, reason)),
        }
    }
}

/// A condition from a command line: the first word is the command, the words
/// after it are its arguments. A line without words gives the empty command.
pub fn when_execute(execute: &str) -> (r: WhenExecute)
    ensures
        words(execute@).len() == 0 ==> r.command@.len() == 0 && r.args@.len() == 0,
        words(execute@).len() > 0 ==> r.command@ == words(execute@)[0] && strings_view(r.args)
            == words(execute@).skip(1),
{
    let parts = split_words(execute);
    if parts.len() == 0 {
        return WhenExecute { command: String::new(), args: Vec::new() };
    }
    let command = parts[0].clone();
    let mut args: Vec<String> = Vec::new();
    let mut i: usize = 1;
    while i < parts.len()
        invariant
            1 <= i <= parts.len(),
            args.len() == i - 1,
            forall|j: int| 0 <= j < args.len() ==> args[j]@ == parts[j + 1]@,
        decreases parts.len() - i,
    {
        args.push(parts[i].clone());
        i += 1;
    }
    assert(strings_view(args) =~= strings_view(parts).skip(1));
    WhenExecute { command: command, args: args }
}

} // verus!
