//! The inventory: every group, by name.

use vstd::prelude::*;
use vstd::string::*;
use crate::context::Context;
use crate::error::{Error, ErrorView};
use crate::group::Group;
use crate::plan::{describing, lemma_describing_both, Command, Mode, Task, TaskView};
use crate::table::{has_name, Table};

verus! {

/// The groups of an inventory, each under its name. No two groups go by
/// the same name.
#[derive(Debug)]
pub struct Inventory(pub Table<Group>);

/// The plans of the groups `entries` in `mode`, one after the other.
pub open spec fn group_plans(entries: Seq<(Seq<char>, Group)>, mode: Mode, context: &Context) -> Seq<
    TaskView,
>
    decreases entries.len(),
{
    if entries.len() == 0 {
        Seq::empty()
    } else {
        group_plans(entries.drop_last(), mode, context) + entries.last().1.plan(mode, context)
    }
}

/// The plans that explain the groups `entries` only look and speak.
pub proof fn lemma_group_plans_describe(entries: Seq<(Seq<char>, Group)>, context: &Context)
    ensures
        describing(group_plans(entries, Mode::Explain, context)),
    decreases entries.len(),
{
    if entries.len() > 0 {
        lemma_group_plans_describe(entries.drop_last(), context);
        entries.last().1.lemma_explain_describes(context);
        lemma_describing_both(
            group_plans(entries.drop_last(), Mode::Explain, context),
            entries.last().1.plan(Mode::Explain, context),
        );
    }
}

impl Inventory {
    /// The groups in order, each with its name.
    pub open spec fn groups(&self) -> Seq<(Seq<char>, Group)> {
        self.0@
    }

    /// An inventory without groups.
    pub fn new() -> (inventory: Inventory)
        ensures
            inventory.groups() == Seq::<(Seq<char>, Group)>::empty(),
    {
        Inventory(Table::new())
    }

    /// Puts `group` into the inventory under `name`. A group that went by
    /// that name is replaced, in its place, and returned; a new name goes
    /// to the end.
    pub fn insert(&mut self, name: String, group: Group) -> (previous: Option<Group>)
        ensures
            match previous {
                Some(replaced) => exists|i: int|
                    0 <= i < old(self).groups().len() && #[trigger] old(self).groups()[i] == (
                        name@,
                        replaced,
                    ) && final(self).groups() == old(self).groups().update(i, (name@, group)),
                None => !has_name(old(self).groups(), name@) && final(self).groups() == old(
                    self,
                ).groups().push((name@, group)),
            },
    {
        let previous = self.0.insert(name, group);
        proof {
            if previous is Some {
                let replaced = previous->Some_0;
                let i = choose|i: int|
                    0 <= i < old(self).0@.len() && #[trigger] old(self).0@[i] == (name@, replaced)
                        && self.0@ == old(self).0@.update(i, (name@, group));
                assert(old(self).groups()[i] == (name@, replaced));
            }
        }
        previous
    }

    /// Takes the group that goes by `group` out of the inventory and hands
    /// it over; `None` if there is no such group, and the inventory is then
    /// unchanged.
    pub fn group(&mut self, group: &str) -> (taken: Option<Group>)
        ensures
            taken is Some <==> has_name(old(self).groups(), group@),
            match taken {
                Some(found) => exists|i: int|
                    0 <= i < old(self).groups().len() && #[trigger] old(self).groups()[i] == (
                        group@,
                        found,
                    ) && final(self).groups() == old(self).groups().remove(i),
                None => final(self).groups() == old(self).groups(),
            },
    {
        let taken = self.0.remove(group);
        proof {
            if taken is Some {
                let found = taken->Some_0;
                let i = choose|i: int|
                    0 <= i < old(self).0@.len() && #[trigger] old(self).0@[i] == (group@, found)
                        && self.0@ == old(self).0@.remove(i);
                assert(old(self).groups()[i] == (group@, found));
            }
        }
        taken
    }

    /// What an invocation is to do: the plan that `context` asks for, of
    /// the group that goes by `only`, or of the whole inventory where
    /// `only` names none. A name that no group goes by is an error. The
    /// group whose plan is returned is taken out of the inventory.
    pub fn select(&mut self, only: Option<&str>, context: &Context) -> (plan: Result<
        Vec<Task>,
        Error,
    >)
        ensures
            match only {
                Some(name) => match plan {
                    Ok(tasks) => exists|i: int|
                        0 <= i < old(self).groups().len() && (#[trigger] old(self).groups()[i]).0
                            == name@ && tasks.deep_view() == old(self).groups()[i].1.plan(
                            Mode::asked(context),
                            context,
                        ) && final(self).groups() == old(self).groups().remove(i),
                    Err(error) => !has_name(old(self).groups(), name@) && error@
                        == ErrorView::Lookup(name@) && final(self).groups() == old(self).groups(),
                },
                None => plan is Ok && plan->Ok_0.deep_view() == old(self).plan(
                    Mode::asked(context),
                    context,
                ) && final(self).groups() == old(self).groups(),
            },
    {
        match only {
            Some(name) => match self.group(name) {
                Some(group) => Ok(group.prepare(context)),
                None => Err(Error::Lookup(name.to_owned())),
            },
            None => Ok(self.prepare(context)),
        }
    }

    /// The plans of all groups in `mode`, one after the other.
    fn collect(&self, mode: Mode, context: &Context) -> (plan: Vec<Task>)
        ensures
            plan.deep_view() == group_plans(self.groups(), mode, context),
    {
        let mut plan: Vec<Task> = Vec::new();
        let count: usize = self.0.len();
        let mut i: usize = 0;
        assert(plan.deep_view() =~= group_plans(self.groups().take(0), mode, context));
        while i < count
            invariant
                count == self.groups().len(),
                i <= count,
                plan.deep_view() == group_plans(self.groups().take(i as int), mode, context),
            decreases count - i,
        {
            let ghost before = plan.deep_view();
            let value = self.0.value(i);
            let mut part = match mode {
                Mode::Execute => value.execute(context),
                Mode::Rollback => value.rollback(context),
                Mode::Explain => value.explain(context),
            };
            let ghost added = part.deep_view();
            plan.append(&mut part);
            i += 1;
            proof {
                assert(plan.deep_view() =~= before + added);
                assert(self.groups().take(i as int).drop_last() =~= self.groups().take(i - 1));
                assert(self.groups().take(i as int).last() == self.groups()[i - 1]);
            }
        }
        assert(self.groups().take(i as int) =~= self.groups());
        plan
    }
}

impl Command for Inventory {
    /// The plans of the groups, one after the other, in the order in which
    /// their names came into the inventory.
    open spec fn plan(&self, mode: Mode, context: &Context) -> Seq<TaskView> {
        group_plans(self.groups(), mode, context)
    }

    proof fn lemma_explain_describes(&self, context: &Context) {
        lemma_group_plans_describe(self.groups(), context);
    }

    fn execute(&self, context: &Context) -> (plan: Vec<Task>) {
        self.collect(Mode::Execute, context)
    }

    fn rollback(&self, context: &Context) -> (plan: Vec<Task>) {
        self.collect(Mode::Rollback, context)
    }

    fn explain(&self, context: &Context) -> (plan: Vec<Task>) {
        self.collect(Mode::Explain, context)
    }
}

} // verus!
