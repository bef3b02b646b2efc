//! The dispatcher: given a tokenized, non-empty command line, decides whether
//! the first word names a builtin (builtins always win) or must be resolved
//! on the search path and run as an external program.

use vstd::prelude::*;
use crate::builtins::BuiltinCommand;
use crate::builtins::Shell;
use crate::builtins::spec_builtin_of;
use crate::strutil::views_of;

verus! {

/// What the dispatcher decides to do with a command line.
#[derive(Clone, Copy, PartialEq, Eq, Structural, Debug)]
pub enum Action {
    /// Run this builtin with the remaining words as arguments.
    RunBuiltin(BuiltinCommand),
    /// Resolve the first word on the search path and run it externally.
    RunExternal,
}

/// The action a command line dispatches to: the builtin the first word
/// denotes, else external resolution.
pub open spec fn spec_dispatch(words: Seq<Seq<char>>) -> Action
    recommends
        words.len() > 0,
{
    match spec_builtin_of(words[0]) {
        Some(b) => Action::RunBuiltin(b),
        None => Action::RunExternal,
    }
}

impl Shell {
    /// Decides what to do with a tokenized command line.
    pub fn dispatch(&self, words: &Vec<String>) -> (a: Action)
        requires
            words@.len() > 0,
        ensures
            a == spec_dispatch(views_of(words@)),
    {
        proof {
            assert(views_of(words@)[0] == words@[0]@);
        }
        match self.lookup(words[0].as_str()) {
            Some(b) => Action::RunBuiltin(b),
            None => Action::RunExternal,
        }
    }
}

/// Builtin precedence: whenever the command name denotes a builtin, dispatch
/// runs that builtin. Search-path resolution plays no part in the decision,
/// so an executable of the same name on the search path is never chosen.
pub proof fn lemma_builtin_precedence(words: Seq<Seq<char>>, b: BuiltinCommand)
    requires
        words.len() > 0,
        spec_builtin_of(words[0]) == Some(b),
    ensures
        spec_dispatch(words) == Action::RunBuiltin(b),
{
}

/// The arguments of a command line: every word after the first.
pub fn tail_words(words: &Vec<String>) -> (args: Vec<String>)
    requires
        words@.len() > 0,
    ensures
        views_of(args@) == views_of(words@).skip(1),
{
    let n = words.len();
    let mut args: Vec<String> = Vec::new();
    let mut i: usize = 1;
    while i < n
        invariant
            n == words@.len(),
            1 <= i <= n,
            args@.len() == i - 1,
            forall|j: int| 0 <= j < i - 1 ==> args@[j]@ == words@[j + 1]@,
        decreases n - i,
    {
        args.push(words[i].clone());
        i += 1;
    }
    proof {
        assert(views_of(args@) =~= views_of(words@).skip(1));
    }
    args
}

} // verus!
