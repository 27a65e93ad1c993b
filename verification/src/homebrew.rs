//! Packages of the Homebrew store.

use vstd::prelude::*;
use vstd::string::*;
use crate::context::{Context, Direction, Explanation};
use crate::operation::{Operation, OperationView};
use crate::plan::{Command, Mode, Task, TaskView};

verus! {

/// The namespace of the store that a package lives in.
#[derive(Clone, Copy, Debug, PartialEq, Eq, Structural)]
pub enum BrewSource {
    Regular,
    Cask,
}

/// Whether the store holds a package.
#[derive(Clone, Copy, Debug, PartialEq, Eq, Structural)]
pub enum BrewStatus {
    Installed,
    Missing,
}

/// The question whether the store is on the machine: whether its program
/// stands where the store installs it.
pub fn is_homebrew_installed() -> (question: Operation)
    ensures
        question@ == (OperationView::Exists { path: "/usr/local/bin/brew"@ }),
{
    Operation::Exists { path: "/usr/local/bin/brew".to_owned() }
}

/// The words that start every call of the store: the program, then the
/// namespace where it is not the regular one.
pub open spec fn brew_command(source: BrewSource) -> Seq<Seq<char>> {
    match source {
        BrewSource::Regular => seq!["brew"@],
        BrewSource::Cask => seq!["brew"@, "cask"@],
    }
}

/// The call that installs `name`.
pub open spec fn install_command(name: Seq<char>, source: BrewSource) -> Seq<Seq<char>> {
    brew_command(source) + seq!["install"@, name]
}

/// The call that removes `name`.
pub open spec fn remove_command(name: Seq<char>, source: BrewSource) -> Seq<Seq<char>> {
    brew_command(source) + seq!["remove"@, name]
}

/// The call that succeeds exactly if a version of `name` is installed.
pub open spec fn ls_command(name: Seq<char>, source: BrewSource) -> Seq<Seq<char>> {
    brew_command(source) + seq!["ls"@, "--versions"@, name]
}

/// The words that start every call of the store.
pub fn brew(source: BrewSource) -> (words: Vec<String>)
    ensures
        words.deep_view() == brew_command(source),
{
    let mut words: Vec<String> = Vec::new();
    words.push("brew".to_owned());
    match source {
        BrewSource::Cask => {
            words.push("cask".to_owned());
        },
        _ => (),
    }
    assert(words.deep_view() =~= brew_command(source));
    words
}

/// The call that installs `name`.
pub fn install(name: &str, cask: BrewSource) -> (words: Vec<String>)
    ensures
        words.deep_view() == install_command(name@, cask),
{
    let mut words = brew(cask);
    words.push("install".to_owned());
    words.push(name.to_owned());
    assert(words.deep_view() =~= install_command(name@, cask));
    words
}

/// The call that removes `name`.
pub fn remove(name: &str, cask: BrewSource) -> (words: Vec<String>)
    ensures
        words.deep_view() == remove_command(name@, cask),
{
    let mut words = brew(cask);
    words.push("remove".to_owned());
    words.push(name.to_owned());
    assert(words.deep_view() =~= remove_command(name@, cask));
    words
}

/// The call that succeeds exactly if a version of `name` is installed.
pub fn ls(name: &str, cask: BrewSource) -> (words: Vec<String>)
    ensures
        words.deep_view() == ls_command(name@, cask),
{
    let mut words = brew(cask);
    words.push("ls".to_owned());
    words.push("--versions".to_owned());
    words.push(name.to_owned());
    assert(words.deep_view() =~= ls_command(name@, cask));
    words
}

/// A package of a tap, a repository of packages outside the store's own.
#[derive(Debug, PartialEq, Eq)]
pub struct TappedBrew {
    pub tap: String,
    pub name: String,
}

/// A package of the cask namespace.
#[derive(Debug, PartialEq, Eq)]
pub struct CaskBrew {
    pub cask: String,
}

/// A package that the inventory wants installed.
#[derive(Debug, PartialEq, Eq)]
pub enum Brew {
    Simple(String),
    FromTap(TappedBrew),
    FromCask(CaskBrew),
}

impl BrewStatus {
    /// What a listing of the package says of it.
    pub fn listed(found: bool) -> (status: BrewStatus)
        ensures
            status == if found {
                BrewStatus::Installed
            } else {
                BrewStatus::Missing
            },
    {
        if found {
            BrewStatus::Installed
        } else {
            BrewStatus::Missing
        }
    }
}

impl Brew {
    /// The name by which the store knows the package, and by which
    /// explanations speak of it: the tap, `/` and the name for a tapped
    /// package, else the name as it is.
    pub open spec fn identity(&self) -> Seq<char> {
        match *self {
            Brew::Simple(name) => name@,
            Brew::FromTap(tapped) => tapped.tap@ + seq!['/'] + tapped.name@,
            Brew::FromCask(cask) => cask.cask@,
        }
    }

    /// The namespace in which the package is asked after, installed and
    /// removed.
    pub open spec fn namespace(&self) -> BrewSource {
        match *self {
            Brew::FromCask(_) => BrewSource::Cask,
            _ => BrewSource::Regular,
        }
    }

    /// The question whose answer is the package's status.
    pub open spec fn listing(&self) -> OperationView {
        OperationView::List { source: self.namespace(), name: self.identity() }
    }

    /// What is said of the package, found in `status`, before a run in
    /// `direction`.
    pub open spec fn note(&self, status: BrewStatus, direction: Direction) -> Seq<char> {
        match (status, direction) {
            (BrewStatus::Installed, Direction::Execute) => self.identity()
                + " is already installed, nothing to do"@,
            (BrewStatus::Missing, Direction::Execute) => "Will install "@ + self.identity(),
            (BrewStatus::Installed, Direction::Rollback) => "WIll uninstall "@ + self.identity()
                + "."@,
            (BrewStatus::Missing, Direction::Rollback) => self.identity()
                + " is not installed, nothing to do."@,
        }
    }

    /// The name by which the store knows the package.
    pub fn name(&self) -> (name: String)
        ensures
            name@ == self.identity(),
    {
        match self {
            Brew::Simple(name) => name.clone(),
            Brew::FromTap(TappedBrew { tap, name }) => {
                proof {
                    reveal_strlit("/");
                }
                let mut full = tap.clone();
                full.append("/");
                assert(full@ =~= tap@ + seq!['/']);
                full.append(name.as_str());
                full
            },
            Brew::FromCask(CaskBrew { cask }) => cask.clone(),
        }
    }

    /// The namespace in which the package lives.
    pub fn source(&self) -> (source: BrewSource)
        ensures
            source == self.namespace(),
    {
        match self {
            Brew::FromCask(_) => BrewSource::Cask,
            _ => BrewSource::Regular,
        }
    }

    /// The question whose answer is the package's status: `Installed` if
    /// the store lists a version of it, `Missing` if not.
    pub fn status(&self) -> (question: Operation)
        ensures
            question@ == self.listing(),
    {
        Operation::List { source: self.source(), name: self.name() }
    }

    /// What is said of the package, found in `status`, before a run in
    /// `direction`.
    pub fn message(&self, status: BrewStatus, direction: Direction) -> (words: String)
        ensures
            words@ == self.note(status, direction),
    {
        let name = self.name();
        match (status, direction) {
            (BrewStatus::Installed, Direction::Execute) => {
                let mut words = name;
                words.append(" is already installed, nothing to do");
                words
            },
            (BrewStatus::Missing, Direction::Execute) => {
                let mut words = "Will install ".to_owned();
                words.append(name.as_str());
                words
            },
            (BrewStatus::Installed, Direction::Rollback) => {
                let mut words = "WIll uninstall ".to_owned();
                words.append(name.as_str());
                words.append(".");
                words
            },
            (BrewStatus::Missing, Direction::Rollback) => {
                let mut words = name;
                words.append(" is not installed, nothing to do.");
                words
            },
        }
    }
}

impl Command for Brew {
    open spec fn plan(&self, mode: Mode, context: &Context) -> Seq<TaskView> {
        match mode {
            Mode::Execute => seq![
                TaskView::When {
                    probe: self.listing(),
                    found: false,
                    actions: seq![
                        OperationView::Install { source: self.namespace(), name: self.identity() },
                    ],
                },
            ],
            Mode::Rollback => seq![
                TaskView::When {
                    probe: self.listing(),
                    found: true,
                    actions: seq![
                        OperationView::Remove { source: self.namespace(), name: self.identity() },
                    ],
                },
            ],
            Mode::Explain => seq![
                TaskView::Report {
                    probe: self.listing(),
                    present: self.note(BrewStatus::Installed, context.direction),
                    absent: self.note(BrewStatus::Missing, context.direction),
                },
            ],
        }
    }

    proof fn lemma_explain_describes(&self, context: &Context) {
    }

    /// Installs the package unless the store lists it already.
    fn execute(&self, _context: &Context) -> (plan: Vec<Task>) {
        let mut actions: Vec<Operation> = Vec::new();
        actions.push(Operation::Install { source: self.source(), name: self.name() });
        let task = Task::When { probe: self.status(), found: false, actions };
        let mut plan: Vec<Task> = Vec::new();
        plan.push(task);
        proof {
            assert(actions.deep_view() =~= seq![
                OperationView::Install { source: self.namespace(), name: self.identity() },
            ]);
            assert(plan.deep_view() =~= self.plan(Mode::Execute, _context));
        }
        plan
    }

    /// Removes the package if the store lists it.
    fn rollback(&self, _context: &Context) -> (plan: Vec<Task>) {
        let mut actions: Vec<Operation> = Vec::new();
        actions.push(Operation::Remove { source: self.source(), name: self.name() });
        let task = Task::When { probe: self.status(), found: true, actions };
        let mut plan: Vec<Task> = Vec::new();
        plan.push(task);
        proof {
            assert(actions.deep_view() =~= seq![
                OperationView::Remove { source: self.namespace(), name: self.identity() },
            ]);
            assert(plan.deep_view() =~= self.plan(Mode::Rollback, _context));
        }
        plan
    }

    /// Says whether the package would be installed, or removed, or left
    /// as it is.
    fn explain(&self, context: &Context) -> (plan: Vec<Task>) {
        let task = Task::Report {
            probe: self.status(),
            present: Explanation::new(
                self.message(BrewStatus::listed(true), context.direction),
            ),
            absent: Explanation::new(self.message(BrewStatus::listed(false), context.direction)),
        };
        let mut plan: Vec<Task> = Vec::new();
        plan.push(task);
        assert(plan.deep_view() =~= self.plan(Mode::Explain, context));
        plan
    }
}

} // verus!
