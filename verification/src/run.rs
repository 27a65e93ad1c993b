//! Runs: a plan carried out one operation at a time.
//!
//! A run does nothing on the machine. It says which operation comes next,
//! is told what the machine answered, and says what follows from that,
//! until the plan is done or an operation has failed.

use vstd::prelude::*;
use crate::context::Explanation;
use crate::error::{Error, ErrorView};
use crate::operation::{Operation, OperationView, Reply, ReplyView};
use crate::plan::{describing, Task, TaskView};

verus! {

/// A plan part of which is done, with one operation handed out whose
/// answer is awaited.
#[derive(Debug)]
pub struct Run {
    plan: Vec<Task>,
    task: usize,
    action: Option<usize>,
    notes: Vec<Explanation>,
}

/// A `Run` as mathematics sees it.
pub struct RunView {
    /// The whole plan.
    pub plan: Seq<TaskView>,
    /// The place in the plan of the task that is under way.
    pub task: int,
    /// The place among the task's actions of the one that was handed out;
    /// `None` while the task's question is.
    pub action: Option<int>,
    /// What the tasks before this one have said.
    pub notes: Seq<Seq<char>>,
}

/// What a run wants next.
#[derive(Debug)]
pub enum Directive {
    /// Carry out `operation` and resume `run` with the machine's answer.
    Perform { operation: Operation, run: Run },
    /// The plan is done; this is what it said on the way.
    Done(Vec<Explanation>),
    /// An operation failed, and nothing after it was attempted.
    Failed(Error),
}

/// A `Directive` as mathematics sees it.
pub enum DirectiveView {
    Perform { operation: OperationView, run: RunView },
    Done(Seq<Seq<char>>),
    Failed(ErrorView),
}

impl TaskView {
    /// The actions of the task, none for one that only speaks.
    pub open spec fn actions(self) -> Seq<OperationView> {
        match self {
            TaskView::Always { actions } => actions,
            TaskView::When { actions, .. } => actions,
            _ => Seq::empty(),
        }
    }
}

/// What a run wants when it comes to the task at `from` with nothing of
/// that task done: the first operation of the first task, from there on,
/// that has one, after what the tasks before it say has been added to
/// `notes`; or, if no task is left that has one, all that was said.
pub open spec fn seek(plan: Seq<TaskView>, from: int, notes: Seq<Seq<char>>) -> DirectiveView
    decreases plan.len() - from,
{
    if from < 0 || from >= plan.len() {
        DirectiveView::Done(notes)
    } else {
        match plan[from] {
            TaskView::Always { actions } => if actions.len() > 0 {
                DirectiveView::Perform {
                    operation: actions[0],
                    run: RunView { plan, task: from, action: Some(0), notes },
                }
            } else {
                seek(plan, from + 1, notes)
            },
            TaskView::When { probe, .. } => DirectiveView::Perform {
                operation: probe,
                run: RunView { plan, task: from, action: None, notes },
            },
            TaskView::Say { message } => seek(plan, from + 1, notes.push(message)),
            TaskView::Report { probe, .. } => DirectiveView::Perform {
                operation: probe,
                run: RunView { plan, task: from, action: None, notes },
            },
        }
    }
}

impl RunView {
    /// What holds of every run: a task is under way, and the operation
    /// that was handed out is one of that task.
    pub open spec fn well_formed(self) -> bool {
        &&& 0 <= self.task < self.plan.len()
        &&& match self.plan[self.task] {
            TaskView::Always { actions } => self.action is Some && 0 <= self.action->0
                < actions.len(),
            TaskView::When { actions, .. } => self.action is Some ==> 0 <= self.action->0
                < actions.len(),
            TaskView::Say { .. } => false,
            TaskView::Report { .. } => self.action is None,
        }
    }

    /// The operation that was handed out.
    pub open spec fn pending(self) -> OperationView {
        match self.plan[self.task] {
            TaskView::Always { actions } => actions[self.action->0],
            TaskView::When { probe, actions, .. } => match self.action {
                Some(k) => actions[k],
                None => probe,
            },
            TaskView::Say { .. } => arbitrary(),
            TaskView::Report { probe, .. } => probe,
        }
    }

    /// What the run wants after `reply` to the operation that was handed
    /// out.
    ///
    /// An operation that could not be attempted ends the run, and so does
    /// an action that reported failure. `Yes` or `No` to a question says
    /// whether the task's actions are wanted, or which of its two messages.
    /// After `Yes` to an action the next action of the task follows, and
    /// after its last the next task.
    pub open spec fn resume(self, reply: ReplyView) -> DirectiveView {
        match reply {
            ReplyView::Failed(cause) => DirectiveView::Failed(
                ErrorView::Action { operation: self.pending(), cause: Some(cause) },
            ),
            _ => {
                let yes = reply is Yes;
                match self.action {
                    None => match self.plan[self.task] {
                        TaskView::When { found, actions, .. } => if yes == found && actions.len()
                            > 0 {
                            DirectiveView::Perform {
                                operation: actions[0],
                                run: RunView { action: Some(0), ..self },
                            }
                        } else {
                            seek(self.plan, self.task + 1, self.notes)
                        },
                        TaskView::Report { present, absent, .. } => seek(
                            self.plan,
                            self.task + 1,
                            self.notes.push(
                                if yes {
                                    present
                                } else {
                                    absent
                                },
                            ),
                        ),
                        _ => seek(self.plan, self.task + 1, self.notes),
                    },
                    Some(k) => if !yes {
                        DirectiveView::Failed(
                            ErrorView::Action { operation: self.pending(), cause: None },
                        )
                    } else if k + 1 < self.plan[self.task].actions().len() {
                        DirectiveView::Perform {
                            operation: self.plan[self.task].actions()[k + 1],
                            run: RunView { action: Some(k + 1), ..self },
                        }
                    } else {
                        seek(self.plan, self.task + 1, self.notes)
                    },
                }
            },
        }
    }
}

impl DirectiveView {
    /// What holds of every directive: a run that is handed out is well
    /// formed, and the operation handed out with it is the one it awaits
    /// the answer to.
    pub open spec fn well_formed(self) -> bool {
        self matches DirectiveView::Perform { operation, run } ==> run.well_formed() && operation
            == run.pending()
    }

    /// Whether the directive hands out a run on `plan`, or none.
    pub open spec fn follows(self, plan: Seq<TaskView>) -> bool {
        self matches DirectiveView::Perform { run, .. } ==> run.plan == plan
    }

    /// Whether the directive hands out a question, or nothing.
    pub open spec fn only_asks(self) -> bool {
        self matches DirectiveView::Perform { operation, .. } ==> !operation.mutates()
    }
}

/// A run that comes to a task goes on with that task or a later one, on
/// the same plan, and never fails there.
pub proof fn lemma_seek(plan: Seq<TaskView>, from: int, notes: Seq<Seq<char>>)
    requires
        0 <= from,
    ensures
        seek(plan, from, notes).well_formed(),
        seek(plan, from, notes).follows(plan),
        !(seek(plan, from, notes) is Failed),
        seek(plan, from, notes) matches DirectiveView::Perform { run, .. } ==> run.task >= from,
    decreases plan.len() - from,
{
    if from < plan.len() {
        match plan[from] {
            TaskView::Always { actions } => {
                if actions.len() == 0 {
                    lemma_seek(plan, from + 1, notes);
                }
            },
            TaskView::Say { message } => {
                lemma_seek(plan, from + 1, notes.push(message));
            },
            _ => {},
        }
    }
}

/// A run that is resumed stays on its plan and moves forward in it: to the
/// next action of its task, or to a later task.
pub proof fn lemma_resume(run: RunView, reply: ReplyView)
    requires
        run.well_formed(),
    ensures
        run.resume(reply).well_formed(),
        run.resume(reply).follows(run.plan),
        run.resume(reply) matches DirectiveView::Perform { run: next, .. } ==> next.task > run.task
            || (next.task == run.task && next.action is Some && (run.action is Some
            ==> next.action->0 > run.action->0)),
{
    lemma_seek(run.plan, run.task + 1, run.notes);
    match run.plan[run.task] {
        TaskView::Report { present, absent, .. } => {
            lemma_seek(run.plan, run.task + 1, run.notes.push(present));
            lemma_seek(run.plan, run.task + 1, run.notes.push(absent));
        },
        _ => {},
    }
}

/// A failure ends the run: after an operation that could not be
/// attempted, or an action that reported failure itself, nothing more is
/// handed out, and the error names the operation.
pub proof fn lemma_fail_fast(run: RunView, reply: ReplyView)
    requires
        run.well_formed(),
        reply is Failed || (run.action is Some && reply is No),
    ensures
        run.resume(reply) matches DirectiveView::Failed(ErrorView::Action { operation, .. })
            && operation == run.pending(),
{
}

/// On a plan that only looks and speaks, the operation that a run awaits
/// the answer to is a question.
pub proof fn lemma_describing_pending(run: RunView)
    requires
        run.well_formed(),
        describing(run.plan),
    ensures
        !run.pending().mutates(),
{
    assert(run.plan[run.task].describes());
}

/// A run on a plan that only looks and speaks starts with a question, if
/// it hands out anything.
pub proof fn lemma_describing_begins(plan: Seq<TaskView>)
    requires
        describing(plan),
    ensures
        seek(plan, 0, Seq::empty()).only_asks(),
{
    lemma_seek(plan, 0, Seq::empty());
    if let DirectiveView::Perform { operation, run } = seek(plan, 0, Seq::empty()) {
        lemma_describing_pending(run);
    }
}

/// A run on a plan that only looks and speaks goes on with a question, if
/// it hands out anything, whatever it is told.
pub proof fn lemma_describing_resumes(run: RunView, reply: ReplyView)
    requires
        run.well_formed(),
        describing(run.plan),
    ensures
        run.resume(reply).only_asks(),
{
    lemma_resume(run, reply);
    if let DirectiveView::Perform { operation, run: next } = run.resume(reply) {
        lemma_describing_pending(next);
    }
}

impl View for Directive {
    type V = DirectiveView;

    open spec fn view(&self) -> DirectiveView {
        match *self {
            Directive::Perform { operation, run } => DirectiveView::Perform {
                operation: operation@,
                run: run@,
            },
            Directive::Done(notes) => DirectiveView::Done(notes.deep_view()),
            Directive::Failed(error) => DirectiveView::Failed(error@),
        }
    }
}

impl Run {
    /// The run as mathematics sees it.
    pub closed spec fn view(&self) -> RunView {
        RunView {
            plan: self.plan.deep_view(),
            task: self.task as int,
            action: match self.action {
                Some(k) => Some(k as int),
                None => None,
            },
            notes: self.notes.deep_view(),
        }
    }

    /// What holds of every run.
    #[verifier::type_invariant]
    pub open spec fn valid(&self) -> bool {
        self@.well_formed()
    }

    /// Starts on `plan`.
    pub fn begin(plan: Vec<Task>) -> (next: Directive)
        ensures
            next@ == seek(plan.deep_view(), 0, Seq::empty()),
    {
        let notes: Vec<Explanation> = Vec::new();
        assert(notes.deep_view() =~= Seq::<Seq<char>>::empty());
        Run::seek(plan, 0, notes)
    }

    /// Goes on after `reply` to the operation that was handed out.
    pub fn resume(self, reply: Reply) -> (next: Directive)
        ensures
            next@ == self@.resume(reply@),
    {
        proof {
            use_type_invariant(&self);
        }
        let ghost before = self@;
        let Run { plan, task, action, notes } = self;
        let size: usize = plan.len();
        assert(before.plan == plan.deep_view() && task < size);
        assert(before.plan[task as int] == plan@[task as int]@);
        let yes = match reply {
            Reply::Failed(cause) => {
                let operation = Run::handed_out(&plan, task, action);
                return Directive::Failed(Error::Action { operation, cause: Some(cause) });
            },
            Reply::Yes => true,
            Reply::No => false,
        };
        match action {
            None => {
                let mut notes = notes;
                match &plan[task] {
                    Task::When { found, actions, .. } => {
                        if yes == *found && actions.len() > 0 {
                            let operation = actions[0].clone();
                            return Directive::Perform {
                                operation,
                                run: Run { plan, task, action: Some(0), notes },
                            };
                        }
                    },
                    Task::Report { present, absent, .. } => {
                        let ghost said = notes.deep_view();
                        if yes {
                            notes.push(present.clone());
                            assert(notes.deep_view() =~= said.push(present@));
                        } else {
                            notes.push(absent.clone());
                            assert(notes.deep_view() =~= said.push(absent@));
                        }
                    },
                    _ => {},
                }
                Run::seek(plan, task + 1, notes)
            },
            Some(k) => {
                if !yes {
                    let operation = Run::handed_out(&plan, task, action);
                    return Directive::Failed(Error::Action { operation, cause: None });
                }
                let later = match &plan[task] {
                    Task::Always { actions } => {
                        let count: usize = actions.len();
                        assert(k < actions.deep_view().len() == count);
                        if k + 1 < count {
                            assert(actions.deep_view()[k + 1] == actions@[k + 1]@);
                            Some(actions[k + 1].clone())
                        } else {
                            None
                        }
                    },
                    Task::When { actions, .. } => {
                        let count: usize = actions.len();
                        assert(k < actions.deep_view().len() == count);
                        if k + 1 < count {
                            assert(actions.deep_view()[k + 1] == actions@[k + 1]@);
                            Some(actions[k + 1].clone())
                        } else {
                            None
                        }
                    },
                    _ => None,
                };
                match later {
                    Some(operation) => Directive::Perform {
                        operation,
                        run: Run { plan, task, action: Some(k + 1), notes },
                    },
                    None => Run::seek(plan, task + 1, notes),
                }
            },
        }
    }

    /// A run at `action` of `task` of `plan`, with nothing said yet.
    spec fn place(plan: &Vec<Task>, task: usize, action: Option<usize>) -> RunView {
        RunView {
            plan: plan.deep_view(),
            task: task as int,
            action: match action {
                Some(k) => Some(k as int),
                None => None,
            },
            notes: Seq::empty(),
        }
    }

    /// The operation that was handed out.
    fn handed_out(plan: &Vec<Task>, task: usize, action: Option<usize>) -> (operation: Operation)
        requires
            Run::place(plan, task, action).well_formed(),
        ensures
            operation@ == Run::place(plan, task, action).pending(),
    {
        assert(plan.deep_view()[task as int] == plan@[task as int]@);
        match &plan[task] {
            Task::Always { actions } => match action {
                Some(k) => actions[k].clone(),
                None => vstd::pervasive::unreached(),
            },
            Task::When { probe, actions, .. } => match action {
                Some(k) => actions[k].clone(),
                None => probe.clone(),
            },
            Task::Report { probe, .. } => probe.clone(),
            Task::Say { .. } => vstd::pervasive::unreached(),
        }
    }

    /// What the run wants when it comes to the task at `from`.
    fn seek(plan: Vec<Task>, from: usize, said: Vec<Explanation>) -> (next: Directive)
        requires
            from <= plan@.len(),
        ensures
            next@ == seek(plan.deep_view(), from as int, said.deep_view()),
    {
        let ghost goal = seek(plan.deep_view(), from as int, said.deep_view());
        let mut notes = said;
        let mut at: usize = from;
        while at < plan.len()
            invariant
                at <= plan@.len(),
                goal == seek(plan.deep_view(), from as int, said.deep_view()),
                seek(plan.deep_view(), at as int, notes.deep_view()) == goal,
            decreases plan@.len() - at,
        {
            assert(plan.deep_view()[at as int] == plan@[at as int]@);
            let first = match &plan[at] {
                Task::Always { actions } => if actions.len() > 0 {
                    assert(actions.deep_view()[0] == actions@[0]@);
                    Some((actions[0].clone(), Some(0usize)))
                } else {
                    None
                },
                Task::When { probe, .. } => Some((probe.clone(), None)),
                Task::Say { message } => {
                    let ghost said = notes.deep_view();
                    notes.push(message.clone());
                    assert(notes.deep_view() =~= said.push(message@));
                    None
                },
                Task::Report { probe, .. } => Some((probe.clone(), None)),
            };
            match first {
                Some((operation, action)) => {
                    return Directive::Perform {
                        operation,
                        run: Run { plan, task: at, action, notes },
                    };
                },
                None => {},
            }
            at += 1;
        }
        Directive::Done(notes)
    }
}

} // verus!
