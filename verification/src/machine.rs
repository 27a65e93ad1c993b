//! A model of the machine, to say what a run comes to.
//!
//! The model keeps what the questions of a run ask after: which packages
//! the store holds, and at which paths something stands. It takes every
//! action to succeed, and to do what its name says and nothing else. What
//! a command line of the shell does is beyond it.

use vstd::prelude::*;
use crate::context::Context;
use crate::homebrew::{Brew, BrewSource};
use crate::operation::{OperationView, ReplyView};
use crate::plan::{describing, Command, Mode, TaskView};
use crate::run::{lemma_describing_pending, lemma_resume, lemma_seek, seek, DirectiveView};
use crate::symlinks::Symlink;

verus! {

/// What the model knows of a machine.
pub struct Machine {
    /// The packages that the store holds, each with its namespace.
    pub packages: Set<(BrewSource, Seq<char>)>,
    /// The paths at which a file or a link stands.
    pub paths: Set<Seq<char>>,
}

impl Machine {
    /// What the machine answers to `operation`: to a question the truth,
    /// to an action that it was carried out.
    pub open spec fn reply(self, operation: OperationView) -> ReplyView {
        match operation {
            OperationView::List { source, name } => if self.packages.contains((source, name)) {
                ReplyView::Yes
            } else {
                ReplyView::No
            },
            OperationView::Exists { path } => if self.paths.contains(path) {
                ReplyView::Yes
            } else {
                ReplyView::No
            },
            _ => ReplyView::Yes,
        }
    }

    /// The machine after `operation` was carried out on it.
    pub open spec fn after(self, operation: OperationView) -> Machine {
        match operation {
            OperationView::Install { source, name } => Machine {
                packages: self.packages.insert((source, name)),
                ..self
            },
            OperationView::Remove { source, name } => Machine {
                packages: self.packages.remove((source, name)),
                ..self
            },
            OperationView::Link { to, .. } => Machine { paths: self.paths.insert(to), ..self },
            OperationView::Unlink { path } => Machine { paths: self.paths.remove(path), ..self },
            _ => self,
        }
    }
}

/// The tasks that `next` has not left behind.
pub open spec fn tasks_left(next: DirectiveView) -> int {
    match next {
        DirectiveView::Perform { run, .. } => run.plan.len() - run.task,
        _ => 0,
    }
}

/// The operations of its task that `next` has not left behind.
pub open spec fn operations_left(next: DirectiveView) -> int {
    match next {
        DirectiveView::Perform { run, .. } => match run.action {
            Some(k) => run.plan[run.task].actions().len() - k,
            None => run.plan[run.task].actions().len() as int + 1,
        },
        _ => 0,
    }
}

/// Where a run ends, and what it leaves of `machine`, if every operation
/// from `next` on is carried out on the machine and answered by it.
pub open spec fn settle(next: DirectiveView, machine: Machine) -> (DirectiveView, Machine)
    decreases tasks_left(next), operations_left(next),
{
    match next {
        DirectiveView::Perform { operation, run } => if run.well_formed() {
            proof {
                lemma_resume(run, machine.reply(operation));
            }
            settle(run.resume(machine.reply(operation)), machine.after(operation))
        } else {
            (next, machine)
        },
        _ => (next, machine),
    }
}

/// Where a run on `plan` ends, and what it leaves of `machine`.
pub open spec fn carried_out(plan: Seq<TaskView>, machine: Machine) -> (DirectiveView, Machine) {
    settle(seek(plan, 0, Seq::empty()), machine)
}

/// A run that only asks leaves the machine as it was.
pub proof fn lemma_asking_changes_nothing(next: DirectiveView, machine: Machine)
    requires
        next.well_formed(),
        next matches DirectiveView::Perform { run, .. } ==> describing(run.plan),
    ensures
        settle(next, machine).1 == machine,
        !(next is Failed) ==> settle(next, machine).0 is Done,
    decreases tasks_left(next), operations_left(next),
{
    if let DirectiveView::Perform { operation, run } = next {
        lemma_describing_pending(run);
        lemma_resume(run, machine.reply(operation));
        assert(run.plan[run.task].describes());
        if let TaskView::Report { present, absent, .. } = run.plan[run.task] {
            lemma_seek(run.plan, run.task + 1, run.notes.push(present));
            lemma_seek(run.plan, run.task + 1, run.notes.push(absent));
        }
        lemma_asking_changes_nothing(run.resume(machine.reply(operation)), machine);
    }
}

/// To explain changes nothing: a run on the plan that explains `target`
/// comes to its end and leaves the machine as it was.
pub proof fn lemma_explain_changes_nothing<T: Command>(
    target: &T,
    context: &Context,
    machine: Machine,
)
    ensures
        carried_out(target.plan(Mode::Explain, context), machine).0 is Done,
        carried_out(target.plan(Mode::Explain, context), machine).1 == machine,
{
    let plan = target.plan(Mode::Explain, context);
    target.lemma_explain_describes(context);
    lemma_seek(plan, 0, Seq::empty());
    lemma_asking_changes_nothing(seek(plan, 0, Seq::empty()), machine);
}

/// To install a package twice is to install it once: the first run ends
/// with the package in the store, and a second run ends as the first did
/// and changes nothing.
pub proof fn lemma_execute_brew_twice(brew: &Brew, context: &Context, machine: Machine)
    ensures
        ({
            let plan = brew.plan(Mode::Execute, context);
            let once = carried_out(plan, machine);
            &&& once.0 is Done
            &&& once.1.packages.contains((brew.namespace(), brew.identity()))
            &&& carried_out(plan, once.1) == once
        }),
{
    reveal_with_fuel(settle, 3);
    reveal_with_fuel(seek, 2);
    let plan = brew.plan(Mode::Execute, context);
    let once = carried_out(plan, machine);
    assert(once.1.packages =~= machine.packages.insert((brew.namespace(), brew.identity())));
}

/// To remove a package that was just installed restores the machine, if
/// the store did not hold the package before.
pub proof fn lemma_rollback_brew(brew: &Brew, context: &Context, machine: Machine)
    requires
        !machine.packages.contains((brew.namespace(), brew.identity())),
    ensures
        ({
            let there = carried_out(brew.plan(Mode::Execute, context), machine);
            let back = carried_out(brew.plan(Mode::Rollback, context), there.1);
            &&& back.0 is Done
            &&& back.1 == machine
        }),
{
    reveal_with_fuel(settle, 3);
    reveal_with_fuel(seek, 2);
    let there = carried_out(brew.plan(Mode::Execute, context), machine);
    let back = carried_out(brew.plan(Mode::Rollback, context), there.1);
    assert(back.1.packages =~= machine.packages);
}

/// To remove a package twice is to remove it once: the first run ends
/// with the package out of the store, and a second run ends as the first
/// did and changes nothing.
pub proof fn lemma_rollback_brew_twice(brew: &Brew, context: &Context, machine: Machine)
    ensures
        ({
            let plan = brew.plan(Mode::Rollback, context);
            let once = carried_out(plan, machine);
            &&& once.0 is Done
            &&& !once.1.packages.contains((brew.namespace(), brew.identity()))
            &&& carried_out(plan, once.1) == once
        }),
{
    reveal_with_fuel(settle, 3);
    reveal_with_fuel(seek, 2);
    let plan = brew.plan(Mode::Rollback, context);
    let once = carried_out(plan, machine);
    assert(once.1.packages =~= machine.packages.remove((brew.namespace(), brew.identity())));
}

/// To make a link twice is to make it once: the first run ends with
/// something at the link's target, and a second run ends as the first did
/// and changes nothing.
pub proof fn lemma_execute_symlink_twice(link: &Symlink, context: &Context, machine: Machine)
    ensures
        ({
            let plan = link.plan(Mode::Execute, context);
            let once = carried_out(plan, machine);
            &&& once.0 is Done
            &&& once.1.paths.contains(link.target(context))
            &&& carried_out(plan, once.1) == once
        }),
{
    reveal_with_fuel(settle, 4);
    reveal_with_fuel(seek, 2);
    let plan = link.plan(Mode::Execute, context);
    let once = carried_out(plan, machine);
    if !machine.paths.contains(link.target(context)) {
        assert(once.1.paths =~= machine.paths.insert(link.target(context)));
    }
}

/// To remove a link twice is to remove it once: the first run ends with
/// nothing at the link's target, and a second run ends as the first did
/// and changes nothing.
pub proof fn lemma_rollback_symlink_twice(link: &Symlink, context: &Context, machine: Machine)
    ensures
        ({
            let plan = link.plan(Mode::Rollback, context);
            let once = carried_out(plan, machine);
            &&& once.0 is Done
            &&& !once.1.paths.contains(link.target(context))
            &&& carried_out(plan, once.1) == once
        }),
{
    reveal_with_fuel(settle, 3);
    reveal_with_fuel(seek, 2);
    let plan = link.plan(Mode::Rollback, context);
    let once = carried_out(plan, machine);
    assert(once.1.paths =~= machine.paths.remove(link.target(context)));
}

/// To remove a link that was just made restores the machine, if nothing
/// stood at the link's target before.
pub proof fn lemma_rollback_symlink(link: &Symlink, context: &Context, machine: Machine)
    requires
        !machine.paths.contains(link.target(context)),
    ensures
        ({
            let there = carried_out(link.plan(Mode::Execute, context), machine);
            let back = carried_out(link.plan(Mode::Rollback, context), there.1);
            &&& back.0 is Done
            &&& back.1 == machine
        }),
{
    reveal_with_fuel(settle, 4);
    reveal_with_fuel(seek, 2);
    let there = carried_out(link.plan(Mode::Execute, context), machine);
    let back = carried_out(link.plan(Mode::Rollback, context), there.1);
    assert(there.1.paths =~= machine.paths.insert(link.target(context)));
    assert(back.1.paths =~= machine.paths);
}

} // verus!
