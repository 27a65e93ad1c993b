//! Groups: the resources that are reconciled together.

use vstd::prelude::*;
use crate::context::Context;
use crate::homebrew::Brew;
use crate::plan::{
    lemma_describing_both, lemma_plans_describe, plans, Command, Mode, Task, TaskView,
};
use crate::shell::ShellCommand;
use crate::symlinks::Symlink;

verus! {

/// The packages, links and command lines of one group of the inventory.
#[derive(Debug, PartialEq, Eq)]
pub struct Group {
    pub brew: Vec<Brew>,
    pub symlinks: Vec<Symlink>,
    pub shell: Vec<ShellCommand>,
}

impl Default for Group {
    /// A group without resources.
    fn default() -> (group: Group)
        ensures
            group.brew@.len() == 0,
            group.symlinks@.len() == 0,
            group.shell@.len() == 0,
    {
        Group { brew: Vec::new(), symlinks: Vec::new(), shell: Vec::new() }
    }
}

impl Command for Group {
    /// The plans of the packages, then those of the links, then those of
    /// the command lines, each kind in the order of the inventory.
    open spec fn plan(&self, mode: Mode, context: &Context) -> Seq<TaskView> {
        plans(self.brew@, mode, context) + plans(self.symlinks@, mode, context) + plans(
            self.shell@,
            mode,
            context,
        )
    }

    proof fn lemma_explain_describes(&self, context: &Context) {
        lemma_plans_describe(self.brew@, context);
        lemma_plans_describe(self.symlinks@, context);
        lemma_plans_describe(self.shell@, context);
        lemma_describing_both(
            plans(self.brew@, Mode::Explain, context),
            plans(self.symlinks@, Mode::Explain, context),
        );
        lemma_describing_both(
            plans(self.brew@, Mode::Explain, context) + plans(
                self.symlinks@,
                Mode::Explain,
                context,
            ),
            plans(self.shell@, Mode::Explain, context),
        );
    }

    fn execute(&self, context: &Context) -> (plan: Vec<Task>) {
        let mut plan = self.brew.execute(context);
        let mut links = self.symlinks.execute(context);
        let mut lines = self.shell.execute(context);
        let ghost first = plan.deep_view();
        let ghost second = links.deep_view();
        let ghost third = lines.deep_view();
        plan.append(&mut links);
        plan.append(&mut lines);
        assert(plan.deep_view() =~= first + second + third);
        plan
    }

    fn rollback(&self, context: &Context) -> (plan: Vec<Task>) {
        let mut plan = self.brew.rollback(context);
        let mut links = self.symlinks.rollback(context);
        let mut lines = self.shell.rollback(context);
        let ghost first = plan.deep_view();
        let ghost second = links.deep_view();
        let ghost third = lines.deep_view();
        plan.append(&mut links);
        plan.append(&mut lines);
        assert(plan.deep_view() =~= first + second + third);
        plan
    }

    fn explain(&self, context: &Context) -> (plan: Vec<Task>) {
        let mut plan = self.brew.explain(context);
        let mut links = self.symlinks.explain(context);
        let mut lines = self.shell.explain(context);
        let ghost first = plan.deep_view();
        let ghost second = links.deep_view();
        let ghost third = lines.deep_view();
        plan.append(&mut links);
        plan.append(&mut lines);
        assert(plan.deep_view() =~= first + second + third);
        plan
    }
}

} // verus!
