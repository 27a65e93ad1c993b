//! Plans: what a resource asks of the machine, written down before any of
//! it is done.

use vstd::prelude::*;
use crate::context::{Context, Direction, Explanation};
use crate::operation::{Operation, OperationView};

verus! {

/// What is wanted of a resource: to bring it about, to take it back, or to
/// say what either would do.
#[derive(Clone, Copy, Debug, PartialEq, Eq, Structural)]
pub enum Mode {
    Execute,
    Rollback,
    Explain,
}

impl Mode {
    /// The mode of a real run in `direction`.
    pub open spec fn of(direction: Direction) -> Mode {
        match direction {
            Direction::Execute => Mode::Execute,
            Direction::Rollback => Mode::Rollback,
        }
    }

    /// The mode that `context` asks for: to explain, or else a real run in
    /// its direction.
    pub open spec fn asked(context: &Context) -> Mode {
        if context.explain {
            Mode::Explain
        } else {
            Mode::of(context.direction)
        }
    }
}

/// One step of a plan. Whether anything is done in it may hang on what
/// the machine answers to a question.
#[derive(Debug, PartialEq, Eq)]
pub enum Task {
    /// Carry out `actions` in order.
    Always { actions: Vec<Operation> },
    /// Ask `probe`, and carry out `actions` in order if the answer is
    /// `found`; else do nothing.
    When { probe: Operation, found: bool, actions: Vec<Operation> },
    /// Say `message`.
    Say { message: Explanation },
    /// Ask `probe`, and say `present` if what it asks after is there,
    /// `absent` if it is not.
    Report { probe: Operation, present: Explanation, absent: Explanation },
}

/// A `Task` with its texts as sequences of characters.
pub enum TaskView {
    Always { actions: Seq<OperationView> },
    When { probe: OperationView, found: bool, actions: Seq<OperationView> },
    Say { message: Seq<char> },
    Report { probe: OperationView, present: Seq<char>, absent: Seq<char> },
}

impl View for Task {
    type V = TaskView;

    open spec fn view(&self) -> TaskView {
        match *self {
            Task::Always { actions } => TaskView::Always { actions: actions.deep_view() },
            Task::When { probe, found, actions } => TaskView::When {
                probe: probe@,
                found,
                actions: actions.deep_view(),
            },
            Task::Say { message } => TaskView::Say { message: message@ },
            Task::Report { probe, present, absent } => TaskView::Report {
                probe: probe@,
                present: present@,
                absent: absent@,
            },
        }
    }
}

impl DeepView for Task {
    type V = TaskView;

    open spec fn deep_view(&self) -> TaskView {
        self@
    }
}

impl TaskView {
    /// Whether the task only looks and speaks: it holds no operation but a
    /// question.
    pub open spec fn describes(self) -> bool {
        match self {
            TaskView::Say { .. } => true,
            TaskView::Report { probe, .. } => !probe.mutates(),
            _ => false,
        }
    }
}

/// Whether every task of `plan` only looks and speaks.
pub open spec fn describing(plan: Seq<TaskView>) -> bool {
    forall|i: int| 0 <= i < plan.len() ==> (#[trigger] plan[i]).describes()
}

/// Two plans that only look and speak make one that does.
pub proof fn lemma_describing_both(first: Seq<TaskView>, second: Seq<TaskView>)
    requires
        describing(first),
        describing(second),
    ensures
        describing(first + second),
{
    assert forall|i: int| 0 <= i < (first + second).len() implies (#[trigger] (first
        + second)[i]).describes() by {
        if i < first.len() {
            assert((first + second)[i] == first[i]);
        } else {
            assert((first + second)[i] == second[i - first.len()]);
        }
    }
}

/// A resource, or a collection of resources, that can be reconciled with
/// the machine. Its three operations do nothing on the machine: each
/// returns the plan of what is to be done.
pub trait Command {
    /// The plan for `self` in `mode`.
    spec fn plan(&self, mode: Mode, context: &Context) -> Seq<TaskView>;

    /// The plan that brings about what `self` declares.
    fn execute(&self, context: &Context) -> (plan: Vec<Task>)
        ensures
            plan.deep_view() == self.plan(Mode::Execute, context),
    ;

    /// The plan that takes back what `self` declares.
    fn rollback(&self, context: &Context) -> (plan: Vec<Task>)
        ensures
            plan.deep_view() == self.plan(Mode::Rollback, context),
    ;

    /// The plan that says what `execute` or `rollback`, whichever the
    /// context's direction selects, would do to the machine as it is.
    fn explain(&self, context: &Context) -> (plan: Vec<Task>)
        ensures
            plan.deep_view() == self.plan(Mode::Explain, context),
    ;

    /// The plan of `execute` or of `rollback`, as the context's direction
    /// has it.
    fn dispatch(&self, context: &Context) -> (plan: Vec<Task>)
        ensures
            plan.deep_view() == self.plan(Mode::of(context.direction), context),
    {
        match context.direction {
            Direction::Execute => self.execute(context),
            Direction::Rollback => self.rollback(context),
        }
    }

    /// To explain changes nothing: the plan that explains only looks and
    /// speaks.
    proof fn lemma_explain_describes(&self, context: &Context)
        ensures
            describing(self.plan(Mode::Explain, context)),
    ;

    /// The plan that `context` asks for: that of `explain` where it asks
    /// for an explanation, and that of `dispatch` where it does not.
    fn prepare(&self, context: &Context) -> (plan: Vec<Task>)
        ensures
            plan.deep_view() == self.plan(Mode::asked(context), context),
    {
        if context.explain {
            self.explain(context)
        } else {
            self.dispatch(context)
        }
    }
}

/// The plans of `items` in `mode`, one after the other.
pub open spec fn plans<T: Command>(items: Seq<T>, mode: Mode, context: &Context) -> Seq<TaskView>
    decreases items.len(),
{
    if items.len() == 0 {
        Seq::empty()
    } else {
        plans(items.drop_last(), mode, context) + items.last().plan(mode, context)
    }
}

/// The plans of `items` in `mode`, one after the other.
pub fn collect<T: Command>(items: &Vec<T>, mode: Mode, context: &Context) -> (plan: Vec<Task>)
    ensures
        plan.deep_view() == plans(items@, mode, context),
{
    let mut plan: Vec<Task> = Vec::new();
    let mut i: usize = 0;
    assert(plan.deep_view() =~= plans(items@.take(0), mode, context));
    while i < items.len()
        invariant
            i <= items@.len(),
            plan.deep_view() == plans(items@.take(i as int), mode, context),
        decreases items@.len() - i,
    {
        let ghost before = plan.deep_view();
        let mut part = match mode {
            Mode::Execute => items[i].execute(context),
            Mode::Rollback => items[i].rollback(context),
            Mode::Explain => items[i].explain(context),
        };
        let ghost added = part.deep_view();
        plan.append(&mut part);
        i += 1;
        proof {
            assert(plan.deep_view() =~= before + added);
            assert(items@.take(i as int).drop_last() =~= items@.take(i - 1));
            assert(items@.take(i as int).last() == items@[i - 1]);
        }
    }
    assert(items@.take(i as int) =~= items@);
    plan
}

/// The plans that explain `items` only look and speak.
pub proof fn lemma_plans_describe<T: Command>(items: Seq<T>, context: &Context)
    ensures
        describing(plans(items, Mode::Explain, context)),
    decreases items.len(),
{
    if items.len() > 0 {
        lemma_plans_describe(items.drop_last(), context);
        items.last().lemma_explain_describes(context);
        lemma_describing_both(
            plans(items.drop_last(), Mode::Explain, context),
            items.last().plan(Mode::Explain, context),
        );
    }
}

impl<T: Command> Command for Vec<T> {
    open spec fn plan(&self, mode: Mode, context: &Context) -> Seq<TaskView> {
        plans(self@, mode, context)
    }

    proof fn lemma_explain_describes(&self, context: &Context) {
        lemma_plans_describe(self@, context);
    }

    fn execute(&self, context: &Context) -> (plan: Vec<Task>) {
        let plan = collect(self, Mode::Execute, context);
        assert(self.plan(Mode::Execute, context) == plans(self@, Mode::Execute, context));
        plan
    }

    fn rollback(&self, context: &Context) -> (plan: Vec<Task>) {
        let plan = collect(self, Mode::Rollback, context);
        assert(self.plan(Mode::Rollback, context) == plans(self@, Mode::Rollback, context));
        plan
    }

    fn explain(&self, context: &Context) -> (plan: Vec<Task>) {
        let plan = collect(self, Mode::Explain, context);
        assert(self.plan(Mode::Explain, context) == plans(self@, Mode::Explain, context));
        plan
    }
}

} // verus!
