//! What every step of a run is told: which way it goes, whether it only
//! explains, and where and in what environment it works.

use vstd::prelude::*;
use vstd::string::*;
use crate::error::Error;
use crate::table::Table;
use crate::text::equal;

verus! {

/// Which way a run drives the machine: towards what the inventory declares,
/// or away from it.
#[derive(Clone, Copy, Debug, PartialEq, Eq, Structural)]
pub enum Direction {
    Execute,
    Rollback,
}

impl Direction {
    /// Reads a direction: `run` is `Execute`, `rollback` is `Rollback`, and
    /// any other word is refused.
    pub fn from_str(s: &str) -> (parsed: Result<Direction, Error>)
        ensures
            s@ == "run"@ ==> parsed == Ok::<Direction, Error>(Direction::Execute),
            s@ == "rollback"@ ==> parsed == Ok::<Direction, Error>(Direction::Rollback),
            s@ != "run"@ && s@ != "rollback"@ ==> parsed is Err && parsed->Err_0
                == Error::DirectionParse,
    {
        proof {
            reveal_strlit("run");
            reveal_strlit("rollback");
            assert("run"@.len() == 3 && "rollback"@.len() == 8);
        }
        if equal(s, "run") {
            Ok(Direction::Execute)
        } else if equal(s, "rollback") {
            Ok(Direction::Rollback)
        } else {
            Err(Error::DirectionParse)
        }
    }
}

/// One line of a preview of what a run would do.
#[derive(Debug, PartialEq, Eq)]
pub struct Explanation {
    pub message: String,
}

impl View for Explanation {
    type V = Seq<char>;

    open spec fn view(&self) -> Seq<char> {
        self.message@
    }
}

impl DeepView for Explanation {
    type V = Seq<char>;

    open spec fn deep_view(&self) -> Seq<char> {
        self@
    }
}

impl Clone for Explanation {
    fn clone(&self) -> (copy: Self)
        ensures
            copy == *self,
    {
        Explanation { message: self.message.clone() }
    }
}

impl Explanation {
    /// An explanation that reads `message`.
    pub fn new(message: String) -> (explanation: Explanation)
        ensures
            explanation.message == message,
    {
        Explanation { message }
    }
}

/// The setting of one invocation. It is made once and then only read.
#[derive(Debug)]
pub struct Context {
    pub direction: Direction,
    pub environment: Table<String>,
    pub explain: bool,
    pub working_directory: String,
}

impl Context {
    /// The environment as names and values, in the order in which the
    /// names were bound.
    pub open spec fn bindings(&self) -> Seq<(Seq<char>, Seq<char>)> {
        Seq::new(
            self.environment@.len(),
            |i: int| (self.environment@[i].0, self.environment@[i].1@),
        )
    }

    /// A context for a real run towards the declared state, in
    /// `working_directory` and with an empty environment.
    pub fn new(working_directory: String) -> (context: Context)
        ensures
            context.direction == Direction::Execute,
            !context.explain,
            context.working_directory == working_directory,
            context.bindings() == Seq::<(Seq<char>, Seq<char>)>::empty(),
    {
        let context = Context {
            direction: Direction::Execute,
            environment: Table::new(),
            explain: false,
            working_directory,
        };
        assert(context.bindings() =~= Seq::<(Seq<char>, Seq<char>)>::empty());
        context
    }

    /// `defaults` with what the command line asked for: the direction that
    /// `direction` names, or `Execute` where it is missing or names none,
    /// and `explain`.
    pub fn from_options(direction: Option<&str>, explain: bool, defaults: Context) -> (context:
        Context)
        ensures
            context.direction == match direction {
                Some(word) => if word@ == "rollback"@ {
                    Direction::Rollback
                } else {
                    Direction::Execute
                },
                None => Direction::Execute,
            },
            context.explain == explain,
            context.working_directory == defaults.working_directory,
            context.environment == defaults.environment,
    {
        proof {
            reveal_strlit("run");
            reveal_strlit("rollback");
        }
        let direction = match direction {
            Some(word) => match Direction::from_str(word) {
                Ok(direction) => direction,
                Err(_) => Direction::Execute,
            },
            None => Direction::Execute,
        };
        Context {
            direction,
            environment: defaults.environment,
            explain,
            working_directory: defaults.working_directory,
        }
    }

    /// Binds `name` to `value` in the environment. A name that was bound
    /// keeps its place and gets the new value; a new name goes to the end.
    pub fn bind(&mut self, name: String, value: String)
        ensures
            final(self).direction == old(self).direction,
            final(self).explain == old(self).explain,
            final(self).working_directory == old(self).working_directory,
            final(self).bindings() == bound(old(self).bindings(), name@, value@),
    {
        let ghost before = self.bindings();
        proof {
            use_type_invariant(&self.environment);
        }
        let previous = self.environment.insert(name, value);
        proof {
            match previous {
                Some(replaced) => {
                    let i = choose|i: int|
                        0 <= i < old(self).environment@.len() && #[trigger] old(
                            self,
                        ).environment@[i] == (name@, replaced) && self.environment@ == old(
                            self,
                        ).environment@.update(i, (name@, value));
                    assert(before[i].0 == name@);
                    assert forall|k: int| 0 <= k < i implies (#[trigger] before[k]).0 != name@ by {
                        assert(old(self).environment@[k].0 == before[k].0);
                    }
                    lemma_place(before, name@, i);
                    assert(self.bindings() =~= before.update(i, (name@, value@)));
                },
                None => {
                    assert forall|i: int| 0 <= i < before.len() implies (#[trigger] before[i]).0
                        != name@ by {
                        assert(old(self).environment@[i].0 == before[i].0);
                    }
                    lemma_place_absent(before, name@);
                    assert(self.bindings() =~= before.push((name@, value@)));
                },
            }
        }
    }

    /// The directory in which the run works.
    pub fn current_dir(&self) -> (directory: &str)
        ensures
            directory@ == self.working_directory@,
    {
        self.working_directory.as_str()
    }
}

/// The place of the first binding of `name` in `bindings`, or their number
/// if there is none.
pub open spec fn place(bindings: Seq<(Seq<char>, Seq<char>)>, name: Seq<char>) -> int
    decreases bindings.len(),
{
    if bindings.len() == 0 {
        0
    } else if bindings[0].0 == name {
        0
    } else {
        1 + place(bindings.skip(1), name)
    }
}

/// `bindings` after `name` is bound to `value`.
pub open spec fn bound(bindings: Seq<(Seq<char>, Seq<char>)>, name: Seq<char>, value: Seq<char>)
    -> Seq<(Seq<char>, Seq<char>)> {
    let at = place(bindings, name);
    if at < bindings.len() {
        bindings.update(at, (name, value))
    } else {
        bindings.push((name, value))
    }
}

/// The first binding of a name is found at its place.
pub proof fn lemma_place(bindings: Seq<(Seq<char>, Seq<char>)>, name: Seq<char>, i: int)
    requires
        0 <= i < bindings.len(),
        bindings[i].0 == name,
        forall|k: int| 0 <= k < i ==> (#[trigger] bindings[k]).0 != name,
    ensures
        place(bindings, name) == i,
    decreases bindings.len(),
{
    if i > 0 {
        let rest = bindings.skip(1);
        assert(bindings[0].0 != name);
        assert forall|k: int| 0 <= k < i - 1 implies (#[trigger] rest[k]).0 != name by {
            assert(rest[k] == bindings[k + 1]);
        }
        lemma_place(rest, name, i - 1);
    }
}

/// A name that is not bound has its place behind all bindings.
pub proof fn lemma_place_absent(bindings: Seq<(Seq<char>, Seq<char>)>, name: Seq<char>)
    requires
        forall|k: int| 0 <= k < bindings.len() ==> (#[trigger] bindings[k]).0 != name,
    ensures
        place(bindings, name) == bindings.len(),
    decreases bindings.len(),
{
    if bindings.len() > 0 {
        let rest = bindings.skip(1);
        assert(bindings[0].0 != name);
        assert forall|k: int| 0 <= k < rest.len() implies (#[trigger] rest[k]).0 != name by {
            assert(rest[k] == bindings[k + 1]);
        }
        lemma_place_absent(rest, name);
    }
}

} // verus!
