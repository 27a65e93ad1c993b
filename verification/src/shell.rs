//! Command lines for the shell.

use vstd::prelude::*;
use vstd::string::*;
use crate::context::{Context, Explanation};
use crate::operation::{Operation, OperationView};
use crate::plan::{Command, Mode, Task, TaskView};

verus! {

/// A command line that the inventory wants run. Nothing tells whether it
/// has run before, and nothing takes it back.
#[derive(Debug, PartialEq, Eq)]
pub struct ShellCommand {
    pub run: String,
}

impl ShellCommand {
    /// What is said of the command line before a run.
    pub open spec fn note(&self) -> Seq<char> {
        "About to run \""@ + self.run@ + "\""@
    }

    /// What is said of the command line before a run.
    pub fn message(&self) -> (words: String)
        ensures
            words@ == self.note(),
    {
        let mut words = "About to run \"".to_owned();
        words.append(self.run.as_str());
        words.append("\"");
        words
    }
}

impl Command for ShellCommand {
    open spec fn plan(&self, mode: Mode, context: &Context) -> Seq<TaskView> {
        match mode {
            Mode::Execute => seq![
                TaskView::Always { actions: seq![OperationView::Shell { line: self.run@ }] },
            ],
            Mode::Rollback => Seq::empty(),
            Mode::Explain => seq![TaskView::Say { message: self.note() }],
        }
    }

    proof fn lemma_explain_describes(&self, context: &Context) {
    }

    /// Runs the command line.
    fn execute(&self, _context: &Context) -> (plan: Vec<Task>) {
        let mut actions: Vec<Operation> = Vec::new();
        actions.push(Operation::Shell { line: self.run.clone() });
        let task = Task::Always { actions };
        let mut plan: Vec<Task> = Vec::new();
        plan.push(task);
        proof {
            assert(actions.deep_view() =~= seq![OperationView::Shell { line: self.run@ }]);
            assert(plan.deep_view() =~= self.plan(Mode::Execute, _context));
        }
        plan
    }

    /// Does nothing: a command line has no inverse.
    fn rollback(&self, _context: &Context) -> (plan: Vec<Task>) {
        let plan: Vec<Task> = Vec::new();
        assert(plan.deep_view() =~= self.plan(Mode::Rollback, _context));
        plan
    }

    /// Says which command line would run.
    fn explain(&self, _context: &Context) -> (plan: Vec<Task>) {
        let mut plan: Vec<Task> = Vec::new();
        plan.push(Task::Say { message: Explanation::new(self.message()) });
        assert(plan.deep_view() =~= self.plan(Mode::Explain, _context));
        plan
    }
}

} // verus!
