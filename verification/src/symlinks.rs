//! Symbolic links to files.

use vstd::prelude::*;
use vstd::string::*;
use crate::context::{Context, Direction, Explanation};
use crate::operation::{Operation, OperationView};
use crate::path::{is_absolute, join, joined, lemma_joined_absolute};
use crate::plan::{Command, Mode, Task, TaskView};
use crate::table::distinct_names;
use crate::text::{characters, contains, occurs, occurs_at, stands_at};

verus! {

/// A link that the inventory wants at `to`, pointing to the file `from`.
/// `to` may hold placeholders, each a `$` and the name of a variable of the
/// environment.
#[derive(Debug, PartialEq, Eq)]
pub struct Symlink {
    pub from: String,
    pub to: String,
}

/// The placeholder for the variable `name`.
pub open spec fn placeholder(name: Seq<char>) -> Seq<char> {
    seq!['$'] + name
}

/// Whether `text` begins with the placeholder for `name`.
pub open spec fn begins(text: Seq<char>, name: Seq<char>) -> bool {
    occurs_at(text, placeholder(name), 0)
}

/// The place among `bindings` of the one whose placeholder `text` begins
/// with, `None` if there is none. Where `text` begins with the
/// placeholders of several names, as with those of `HOME` and `HOMEBREW`,
/// the longest name is chosen, and of equal names the first.
pub open spec fn chosen(text: Seq<char>, bindings: Seq<(Seq<char>, Seq<char>)>) -> Option<int>
    decreases bindings.len(),
{
    if bindings.len() == 0 {
        None
    } else {
        let last = bindings.len() - 1;
        let earlier = chosen(text, bindings.drop_last());
        if begins(text, bindings[last].0) && (earlier matches Some(best) ==> bindings[best].0.len()
            < bindings[last].0.len()) {
            Some(last)
        } else {
            earlier
        }
    }
}

/// The binding that is chosen is one whose placeholder the text begins
/// with, and none of those has a longer name; none is chosen only where
/// there is none.
pub proof fn lemma_chosen(text: Seq<char>, bindings: Seq<(Seq<char>, Seq<char>)>)
    ensures
        match chosen(text, bindings) {
            Some(i) => {
                &&& 0 <= i < bindings.len()
                &&& begins(text, bindings[i].0)
                &&& forall|j: int|
                    0 <= j < bindings.len() && begins(text, (#[trigger] bindings[j]).0)
                        ==> bindings[j].0.len() <= bindings[i].0.len()
            },
            None => forall|j: int|
                0 <= j < bindings.len() ==> !begins(text, (#[trigger] bindings[j]).0),
        },
    decreases bindings.len(),
{
    if bindings.len() > 0 {
        let earlier = bindings.drop_last();
        lemma_chosen(text, earlier);
        assert forall|j: int| 0 <= j < earlier.len() implies #[trigger] earlier[j]
            == bindings[j] by {}
        match chosen(text, bindings) {
            Some(i) => {
                assert forall|j: int|
                    0 <= j < bindings.len() && begins(
                        text,
                        (#[trigger] bindings[j]).0,
                    ) implies bindings[j].0.len() <= bindings[i].0.len() by {
                    if j < earlier.len() {
                        assert(begins(text, earlier[j].0));
                    }
                }
            },
            None => {
                assert forall|j: int| 0 <= j < bindings.len() implies !begins(
                    text,
                    (#[trigger] bindings[j]).0,
                ) by {
                    if j < earlier.len() {
                        assert(!begins(text, earlier[j].0));
                    }
                }
            },
        }
    }
}

/// `target` with its placeholders replaced, in one pass from left to
/// right: where `target` goes on with the placeholder of a bound name, the
/// value stands in its place, and the pass goes on behind the placeholder;
/// any other character is kept. What a value puts in is never searched
/// for placeholders, and a placeholder of a name that is not bound stays
/// as it is. Of several bound names that fit at one place the longest is
/// taken.
pub open spec fn expanded(target: Seq<char>, bindings: Seq<(Seq<char>, Seq<char>)>) -> Seq<char>
    decreases target.len(),
{
    if target.len() == 0 {
        target
    } else {
        match chosen(target, bindings) {
            Some(i) => {
                proof {
                    lemma_chosen(target, bindings);
                }
                bindings[i].1 + expanded(target.skip(1 + bindings[i].0.len() as int), bindings)
            },
            None => seq![target[0]] + expanded(target.skip(1), bindings),
        }
    }
}

/// The path that `target` stands for in `context`: its placeholders
/// expanded from the environment, the result resolved against the
/// working directory.
pub open spec fn interpolated(target: Seq<char>, context: &Context) -> Seq<char> {
    joined(context.working_directory@, expanded(target, context.bindings()))
}

/// In an absolute working directory every target stands for an absolute
/// path.
pub proof fn lemma_interpolated_absolute(target: Seq<char>, context: &Context)
    requires
        is_absolute(context.working_directory@),
    ensures
        is_absolute(interpolated(target, context)),
{
    lemma_joined_absolute(context.working_directory@, expanded(target, context.bindings()));
}

/// A text goes on at `at` with the placeholder for `name` exactly if a `$`
/// stands there and `name` behind it.
pub proof fn lemma_begins(text: Seq<char>, name: Seq<char>, at: int)
    requires
        0 <= at <= text.len(),
    ensures
        begins(text.skip(at), name) <==> at < text.len() && text[at] == '$' && occurs_at(
            text,
            name,
            at + 1,
        ),
{
    let rest = text.skip(at);
    let pattern = placeholder(name);
    let size = pattern.len() as int;
    if begins(rest, name) {
        assert(rest.subrange(0, size)[0] == pattern[0]);
        assert forall|k: int| 0 <= k < name.len() implies text.subrange(
            at + 1,
            at + 1 + name.len(),
        )[k] == name[k] by {
            assert(rest.subrange(0, size)[k + 1] == pattern[k + 1]);
        }
        assert(text.subrange(at + 1, at + 1 + name.len()) =~= name);
    }
    if at < text.len() && text[at] == '$' && occurs_at(text, name, at + 1) {
        assert forall|k: int| 0 <= k < size implies rest.subrange(0, size)[k] == pattern[k] by {
            if k > 0 {
                assert(text.subrange(at + 1, at + 1 + name.len())[k - 1] == name[k - 1]);
            }
        }
        assert(rest.subrange(0, size) =~= pattern);
    }
}

/// How `expanded` goes on from position `at` of `target`.
pub proof fn lemma_expanded_from(
    target: Seq<char>,
    bindings: Seq<(Seq<char>, Seq<char>)>,
    at: int,
)
    requires
        0 <= at <= target.len(),
    ensures
        at == target.len() ==> expanded(target.skip(at), bindings) == Seq::<char>::empty(),
        at < target.len() ==> match chosen(target.skip(at), bindings) {
            Some(i) => {
                &&& 0 <= i < bindings.len()
                &&& at + 1 + bindings[i].0.len() <= target.len()
                &&& expanded(target.skip(at), bindings) == bindings[i].1 + expanded(
                    target.skip(at + 1 + bindings[i].0.len()),
                    bindings,
                )
            },
            None => expanded(target.skip(at), bindings) == seq![target[at]] + expanded(
                target.skip(at + 1),
                bindings,
            ),
        },
{
    let rest = target.skip(at);
    if at == target.len() {
        assert(rest =~= Seq::<char>::empty());
    } else {
        lemma_chosen(rest, bindings);
        match chosen(rest, bindings) {
            Some(i) => {
                let size = 1 + bindings[i].0.len() as int;
                assert(rest.skip(size) =~= target.skip(at + size));
            },
            None => {
                assert(rest.skip(1) =~= target.skip(at + 1));
            },
        }
    }
}

/// What occurs in the rest of a text occurs in the text.
pub proof fn lemma_occurs_in_rest(text: Seq<char>, needle: Seq<char>, from: int)
    requires
        0 <= from <= text.len(),
        occurs(text.skip(from), needle),
    ensures
        occurs(text, needle),
{
    let rest = text.skip(from);
    let at = choose|at: int| occurs_at(rest, needle, at);
    assert(rest.subrange(at, at + needle.len()) =~= text.subrange(
        from + at,
        from + at + needle.len(),
    ));
    assert(occurs_at(text, needle, from + at));
}

/// A text that begins with a placeholder holds a `$`, and the name.
pub proof fn lemma_begins_occurs(text: Seq<char>, name: Seq<char>)
    requires
        begins(text, name),
    ensures
        occurs(text, seq!['$']),
        occurs(text, name),
{
    lemma_begins(text, name, 0);
    assert(text.skip(0) =~= text);
    assert(text.subrange(0, 1) =~= seq!['$']);
    assert(occurs_at(text, seq!['$'], 0));
    assert(occurs_at(text, name, 1));
}

/// A target without `$` is expanded to itself, whatever the environment.
pub proof fn lemma_expanded_plain(target: Seq<char>, bindings: Seq<(Seq<char>, Seq<char>)>)
    requires
        !occurs(target, seq!['$']),
    ensures
        expanded(target, bindings) == target,
    decreases target.len(),
{
    if target.len() > 0 {
        lemma_chosen(target, bindings);
        if let Some(i) = chosen(target, bindings) {
            lemma_begins_occurs(target, bindings[i].0);
        }
        let rest = target.skip(1);
        if occurs(rest, seq!['$']) {
            lemma_occurs_in_rest(target, seq!['$'], 1);
        }
        lemma_expanded_plain(rest, bindings);
        assert(seq![target[0]] + rest =~= target);
    }
}

/// A target in which none of the bound names occurs is expanded to
/// itself: what looks like a placeholder in it is left standing.
pub proof fn lemma_expanded_unbound(target: Seq<char>, bindings: Seq<(Seq<char>, Seq<char>)>)
    requires
        forall|i: int| 0 <= i < bindings.len() ==> !occurs(target, (#[trigger] bindings[i]).0),
    ensures
        expanded(target, bindings) == target,
    decreases target.len(),
{
    if target.len() > 0 {
        lemma_chosen(target, bindings);
        if let Some(i) = chosen(target, bindings) {
            lemma_begins_occurs(target, bindings[i].0);
            assert(!occurs(target, bindings[i].0));
        }
        let rest = target.skip(1);
        assert forall|i: int| 0 <= i < bindings.len() implies !occurs(
            rest,
            (#[trigger] bindings[i]).0,
        ) by {
            if occurs(rest, bindings[i].0) {
                lemma_occurs_in_rest(target, bindings[i].0, 1);
            }
        }
        lemma_expanded_unbound(rest, bindings);
        assert(seq![target[0]] + rest =~= target);
    }
}

/// Whether every binding of `first` is one of `second`.
pub open spec fn among(
    first: Seq<(Seq<char>, Seq<char>)>,
    second: Seq<(Seq<char>, Seq<char>)>,
) -> bool {
    forall|i: int| 0 <= i < first.len() ==> second.contains(#[trigger] first[i])
}

/// Two environments that hold the same bindings have the same binding
/// chosen, in whatever order each holds them.
pub proof fn lemma_chosen_any_order(
    text: Seq<char>,
    first: Seq<(Seq<char>, Seq<char>)>,
    second: Seq<(Seq<char>, Seq<char>)>,
)
    requires
        distinct_names(first),
        distinct_names(second),
        among(first, second),
        among(second, first),
    ensures
        match (chosen(text, first), chosen(text, second)) {
            (Some(i), Some(j)) => 0 <= i < first.len() && 0 <= j < second.len() && first[i]
                == second[j],
            (None, None) => true,
            _ => false,
        },
{
    lemma_chosen(text, first);
    lemma_chosen(text, second);
    match (chosen(text, first), chosen(text, second)) {
        (Some(i), Some(j)) => {
            assert(second.contains(first[i]));
            let k = choose|k: int| 0 <= k < second.len() && second[k] == first[i];
            assert(begins(text, second[k].0));
            assert(first.contains(second[j]));
            let m = choose|m: int| 0 <= m < first.len() && first[m] == second[j];
            assert(begins(text, first[m].0));
            let size = first[i].0.len();
            assert(second[j].0.len() == size);
            assert(placeholder(first[i].0) == placeholder(second[j].0));
            assert(first[i].0 =~= placeholder(first[i].0).skip(1));
            assert(second[j].0 =~= placeholder(second[j].0).skip(1));
            assert(second[k].0 == second[j].0);
            if k < j {
                assert(second[k].0 != second[j].0);
            }
            if j < k {
                assert(second[j].0 != second[k].0);
            }
        },
        (Some(i), None) => {
            assert(second.contains(first[i]));
            let k = choose|k: int| 0 <= k < second.len() && second[k] == first[i];
            assert(begins(text, second[k].0));
        },
        (None, Some(j)) => {
            assert(first.contains(second[j]));
            let m = choose|m: int| 0 <= m < first.len() && first[m] == second[j];
            assert(begins(text, first[m].0));
        },
        (None, None) => {},
    }
}

/// The order of the bindings does not matter: two environments that hold
/// the same bindings, each name once, expand every target alike.
pub proof fn lemma_expanded_any_order(
    target: Seq<char>,
    first: Seq<(Seq<char>, Seq<char>)>,
    second: Seq<(Seq<char>, Seq<char>)>,
)
    requires
        distinct_names(first),
        distinct_names(second),
        among(first, second),
        among(second, first),
    ensures
        expanded(target, first) == expanded(target, second),
    decreases target.len(),
{
    if target.len() > 0 {
        lemma_chosen(target, first);
        lemma_chosen_any_order(target, first, second);
        match chosen(target, first) {
            Some(i) => {
                lemma_expanded_any_order(target.skip(1 + first[i].0.len() as int), first, second);
            },
            None => {
                lemma_expanded_any_order(target.skip(1), first, second);
            },
        }
    }
}

/// The names of the environment, each as its characters.
fn names_of(context: &Context) -> (names: Vec<Vec<char>>)
    ensures
        names@.len() == context.bindings().len(),
        forall|i: int| 0 <= i < names@.len() ==> (#[trigger] names@[i])@ == context.bindings()[i].0,
{
    let count: usize = context.environment.len();
    let mut names: Vec<Vec<char>> = Vec::new();
    let mut i: usize = 0;
    while i < count
        invariant
            count == context.environment@.len(),
            i <= count,
            names@.len() == i,
            forall|k: int| 0 <= k < i ==> (#[trigger] names@[k])@ == context.bindings()[k].0,
        decreases count - i,
    {
        names.push(characters(context.environment.name(i).as_str()));
        i += 1;
    }
    names
}

/// The place in the environment of the binding to apply at `at` of
/// `text`, if there is one.
fn pick(text: &Vec<char>, at: usize, names: &Vec<Vec<char>>, context: &Context) -> (place: Option<
    usize,
>)
    requires
        at < text@.len(),
        names@.len() == context.bindings().len(),
        forall|i: int| 0 <= i < names@.len() ==> (#[trigger] names@[i])@ == context.bindings()[i].0,
    ensures
        place matches Some(i) ==> chosen(text@.skip(at as int), context.bindings()) == Some(
            i as int,
        ),
        place is None ==> chosen(text@.skip(at as int), context.bindings()) is None,
{
    let ghost rest = text@.skip(at as int);
    let ghost bindings = context.bindings();
    let size: usize = text.len();
    if text[at] != '$' {
        proof {
            lemma_chosen(rest, bindings);
            assert forall|j: int| 0 <= j < bindings.len() implies !begins(
                rest,
                (#[trigger] bindings[j]).0,
            ) by {
                lemma_begins(text@, bindings[j].0, at as int);
            }
        }
        return None;
    }
    let mut best: Option<usize> = None;
    let mut i: usize = 0;
    assert(bindings.take(0) =~= Seq::<(Seq<char>, Seq<char>)>::empty());
    while i < names.len()
        invariant
            rest == text@.skip(at as int),
            bindings == context.bindings(),
            at < text@.len() == size,
            text@[at as int] == '$',
            names@.len() == bindings.len(),
            forall|k: int| 0 <= k < names@.len() ==> (#[trigger] names@[k])@ == bindings[k].0,
            i <= names@.len(),
            best matches Some(k) ==> k < i,
            match best {
                Some(k) => chosen(rest, bindings.take(i as int)) == Some(k as int),
                None => chosen(rest, bindings.take(i as int)) is None,
            },
        decreases names@.len() - i,
    {
        proof {
            let upto = bindings.take(i + 1);
            assert(upto.drop_last() =~= bindings.take(i as int));
            assert(upto[i as int] == bindings[i as int]);
            if let Some(k) = best {
                assert(upto[k as int] == bindings[k as int]);
            }
            lemma_begins(text@, bindings[i as int].0, at as int);
        }
        let longer = match best {
            Some(k) => names[k].len() < names[i].len(),
            None => true,
        };
        if longer && stands_at(text, &names[i], at + 1) {
            best = Some(i);
        }
        i += 1;
    }
    assert(bindings.take(i as int) =~= bindings);
    best
}

/// The path that `target` stands for in `context`.
pub fn interpolate(target: &str, context: &Context) -> (resolved: String)
    ensures
        resolved@ == interpolated(target@, context),
{
    proof {
        reveal_strlit("$");
        assert("$"@ =~= seq!['$']);
    }
    if !contains(target, "$") {
        proof {
            lemma_expanded_plain(target@, context.bindings());
        }
        return join(context.current_dir(), target);
    }
    let text = characters(target);
    let names = names_of(context);
    let size: usize = text.len();
    let mut path = String::new();
    // target[copied..at] has been passed and is still to be copied out
    let mut copied: usize = 0;
    let mut at: usize = 0;
    assert(target@.skip(0) =~= target@);
    assert(path@ + target@.subrange(0, 0) =~= Seq::<char>::empty());
    while at < size
        invariant
            text@ == target@,
            size == text@.len(),
            names@.len() == context.bindings().len(),
            forall|i: int|
                0 <= i < names@.len() ==> (#[trigger] names@[i])@ == context.bindings()[i].0,
            copied <= at <= size,
            path@ + target@.subrange(copied as int, at as int) + expanded(
                target@.skip(at as int),
                context.bindings(),
            ) == expanded(target@, context.bindings()),
        decreases size - at,
    {
        let ghost before = path@;
        let ghost stretch = target@.subrange(copied as int, at as int);
        proof {
            lemma_expanded_from(target@, context.bindings(), at as int);
        }
        match pick(&text, at, &names, context) {
            Some(i) => {
                let value = context.environment.value(i);
                path.append(target.substring_char(copied, at));
                path.append(value.as_str());
                at += 1 + names[i].len();
                copied = at;
                let ghost after = expanded(target@.skip(at as int), context.bindings());
                assert(path@ + target@.subrange(copied as int, at as int) + after =~= before
                    + stretch + (value@ + after));
            },
            None => {
                at += 1;
                let ghost after = expanded(target@.skip(at as int), context.bindings());
                assert(before + target@.subrange(copied as int, at as int) + after =~= before
                    + stretch + (seq![target@[at - 1]] + after));
            },
        }
    }
    proof {
        lemma_expanded_from(target@, context.bindings(), at as int);
        assert(path@ + target@.subrange(copied as int, size as int) =~= path@ + target@.subrange(
            copied as int,
            at as int,
        ) + Seq::<char>::empty());
    }
    path.append(target.substring_char(copied, size));
    join(context.current_dir(), path.as_str())
}

impl Symlink {
    /// The path that `to` stands for. The link is made and removed there,
    /// and the question after the link's status asks what stands there.
    pub open spec fn target(&self, context: &Context) -> Seq<char> {
        interpolated(self.to@, context)
    }

    /// The file that the link points to, seen from the working directory.
    pub open spec fn origin(&self, context: &Context) -> Seq<char> {
        joined(context.working_directory@, self.from@)
    }

    /// The question whose answer is the link's status: there, if anything
    /// at all stands at the target.
    pub open spec fn probe(&self, context: &Context) -> OperationView {
        OperationView::Exists { path: self.target(context) }
    }

    /// What is said of the link before a run in `direction`, if something
    /// stands at its target (`present`) or nothing does.
    pub open spec fn note(&self, present: bool, context: &Context) -> Seq<char> {
        match context.direction {
            Direction::Execute => if present {
                "Symlink to "@ + self.target(context) + " already exists"@
            } else {
                "adding a link from "@ + self.from@ + " to "@ + self.target(context)
            },
            Direction::Rollback => if present {
                "Removing symmlink to "@ + self.target(context)
            } else {
                "Symmlink to "@ + self.target(context) + " did not exist"@
            },
        }
    }

    /// The path that `to` stands for.
    pub fn destination(&self, context: &Context) -> (path: String)
        ensures
            path@ == self.target(context),
    {
        interpolate(self.to.as_str(), context)
    }

    /// The question whose answer is the link's status.
    pub fn status(&self, context: &Context) -> (question: Operation)
        ensures
            question@ == self.probe(context),
    {
        Operation::Exists { path: self.destination(context) }
    }

    /// What is said of the link before a run in the context's direction.
    pub fn message(&self, present: bool, context: &Context) -> (words: String)
        ensures
            words@ == self.note(present, context),
    {
        let destination = self.destination(context);
        match context.direction {
            Direction::Execute => {
                if present {
                    let mut words = "Symlink to ".to_owned();
                    words.append(destination.as_str());
                    words.append(" already exists");
                    words
                } else {
                    let mut words = "adding a link from ".to_owned();
                    words.append(self.from.as_str());
                    words.append(" to ");
                    words.append(destination.as_str());
                    words
                }
            },
            Direction::Rollback => {
                if present {
                    let mut words = "Removing symmlink to ".to_owned();
                    words.append(destination.as_str());
                    words
                } else {
                    let mut words = "Symmlink to ".to_owned();
                    words.append(destination.as_str());
                    words.append(" did not exist");
                    words
                }
            },
        }
    }
}

impl Command for Symlink {
    open spec fn plan(&self, mode: Mode, context: &Context) -> Seq<TaskView> {
        match mode {
            Mode::Execute => seq![
                TaskView::When {
                    probe: self.probe(context),
                    found: false,
                    actions: seq![
                        OperationView::MakeParents { path: self.target(context) },
                        OperationView::Link { from: self.origin(context), to: self.target(context) },
                    ],
                },
            ],
            Mode::Rollback => seq![
                TaskView::When {
                    probe: self.probe(context),
                    found: true,
                    actions: seq![OperationView::Unlink { path: self.target(context) }],
                },
            ],
            Mode::Explain => seq![
                TaskView::Report {
                    probe: self.probe(context),
                    present: self.note(true, context),
                    absent: self.note(false, context),
                },
            ],
        }
    }

    proof fn lemma_explain_describes(&self, context: &Context) {
    }

    /// Makes the link, after the directories above it, unless something
    /// stands at its target already.
    fn execute(&self, context: &Context) -> (plan: Vec<Task>) {
        let current_dir = context.current_dir();
        let destination = self.destination(context);
        let from = join(current_dir, self.from.as_str());
        let mut actions: Vec<Operation> = Vec::new();
        actions.push(Operation::MakeParents { path: destination.clone() });
        actions.push(Operation::Link { from, to: destination });
        let task = Task::When { probe: self.status(context), found: false, actions };
        let mut plan: Vec<Task> = Vec::new();
        plan.push(task);
        proof {
            assert(actions.deep_view() =~= seq![
                OperationView::MakeParents { path: self.target(context) },
                OperationView::Link { from: self.origin(context), to: self.target(context) },
            ]);
            assert(plan.deep_view() =~= self.plan(Mode::Execute, context));
        }
        plan
    }

    /// Removes the link if something stands at its target.
    fn rollback(&self, context: &Context) -> (plan: Vec<Task>) {
        let mut actions: Vec<Operation> = Vec::new();
        actions.push(Operation::Unlink { path: self.destination(context) });
        let task = Task::When { probe: self.status(context), found: true, actions };
        let mut plan: Vec<Task> = Vec::new();
        plan.push(task);
        proof {
            assert(actions.deep_view() =~= seq![OperationView::Unlink { path: self.target(context) }]);
            assert(plan.deep_view() =~= self.plan(Mode::Rollback, context));
        }
        plan
    }

    /// Says whether the link would be made, or removed, or left as it is.
    fn explain(&self, context: &Context) -> (plan: Vec<Task>) {
        let task = Task::Report {
            probe: self.status(context),
            present: Explanation::new(self.message(true, context)),
            absent: Explanation::new(self.message(false, context)),
        };
        let mut plan: Vec<Task> = Vec::new();
        plan.push(task);
        assert(plan.deep_view() =~= self.plan(Mode::Explain, context));
        plan
    }
}

} // verus!
