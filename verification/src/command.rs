//! Command lines that the agent has the system run.

use crate::text::{lemma_views_push, views};
use vstd::prelude::*;

verus! {

/// A program and its arguments.
#[derive(Debug, PartialEq, Eq)]
pub struct CommandLine {
    pub program: String,
    pub args: Vec<String>,
}

/// The contents of a [`CommandLine`].
#[verifier::ext_equal]
pub struct CommandView {
    pub program: Seq<char>,
    pub args: Seq<Seq<char>>,
}

impl View for CommandLine {
    type V = CommandView;

    open spec fn view(&self) -> CommandView {
        CommandView { program: self.program@, args: views(self.args@) }
    }
}

/// `program` with `args`.
pub open spec fn command(program: Seq<char>, args: Seq<Seq<char>>) -> CommandView {
    CommandView { program, args }
}

impl CommandLine {
    /// `program` without arguments.
    pub fn new(program: &str) -> (r: CommandLine)
        ensures
            r@ == command(program@, Seq::empty()),
    {
        let args: Vec<String> = Vec::new();
        assert(views(args@) =~= Seq::empty());
        CommandLine { program: program.to_owned(), args }
    }

    /// The same command line with one more argument.
    pub fn arg(self, a: &str) -> (r: CommandLine)
        ensures
            r@ == command(self@.program, self@.args.push(a@)),
    {
        let mut args = self.args;
        let ghost before = args@;
        let s = a.to_owned();
        args.push(s);
        proof {
            lemma_views_push(before, s);
        }
        CommandLine { program: self.program, args }
    }
}

} // verus!
