//! The names a console can call.

use vstd::prelude::*;
use crate::bridge::Param;
use crate::error::RunError;
use crate::span::Span;

verus! {

/// A function of the host application, as the console knows it: which
/// function it is, and what its parameters take.
#[derive(Debug, PartialEq, Eq)]
pub struct HostFunction {
    /// The number by which the host finds the function.
    pub id: u64,
    /// The kinds of its parameters, in order.
    pub params: Vec<Param>,
}

/// What a [`HostFunction`] is, with its parameters as a sequence.
pub struct HostFunctionView {
    pub id: u64,
    pub params: Seq<Param>,
}

impl View for HostFunction {
    type V = HostFunctionView;

    open spec fn view(&self) -> HostFunctionView {
        HostFunctionView { id: self.id, params: self.params@ }
    }
}

/// What a name of the environment stands for.
#[derive(Debug, PartialEq, Eq)]
pub enum Callable {
    /// Writes a value to the log.
    Print,
    /// Writes a value to the log as the console holds it.
    Dbg,
    /// Counts the references that lead to a value.
    RefDepth,
    /// Disposes of a value.
    Drop,
    /// A function of the host application.
    Host(HostFunction),
}

/// What a [`Callable`] is, with the parameters of a host function as a
/// sequence.
pub enum CallableView {
    Print,
    Dbg,
    RefDepth,
    Drop,
    Host(HostFunctionView),
}

impl View for Callable {
    type V = CallableView;

    open spec fn view(&self) -> CallableView {
        match self {
            Callable::Print => CallableView::Print,
            Callable::Dbg => CallableView::Dbg,
            Callable::RefDepth => CallableView::RefDepth,
            Callable::Drop => CallableView::Drop,
            Callable::Host(function) => CallableView::Host(function@),
        }
    }
}

/// The kinds of the parameters of `callable`, in order.
pub open spec fn signature(callable: CallableView) -> Seq<Param> {
    match callable {
        CallableView::Print => seq![Param::Spanned, Param::World, Param::Registry],
        CallableView::Dbg => seq![Param::Value],
        CallableView::RefDepth => seq![Param::Spanned],
        CallableView::Drop => seq![Param::Value],
        CallableView::Host(function) => function.params,
    }
}

/// The names of an environment, each with what it stands for.
pub type Names = Map<Seq<char>, CallableView>;

struct Entry {
    name: String,
    callable: Callable,
}

/// The registry of callables, by name. Each name stands for one callable:
/// registering under a name that is taken replaces what was there.
pub struct Environment {
    entries: Vec<Entry>,
}

impl View for Environment {
    type V = Names;

    closed spec fn view(&self) -> Names {
        Map::new(
            |name: Seq<char>| self.holds(name),
            |name: Seq<char>| self.entries[self.place(name)].callable@,
        )
    }
}

impl Environment {
    spec fn holds(&self, name: Seq<char>) -> bool {
        exists|at: int| 0 <= at < self.entries.len() && #[trigger] self.entries[at].name@ == name
    }

    spec fn place(&self, name: Seq<char>) -> int {
        choose|at: int| 0 <= at < self.entries.len() && #[trigger] self.entries[at].name@ == name
    }

    /// No name is entered twice. This holds of a new environment, and every
    /// operation keeps it.
    pub closed spec fn wf(&self) -> bool {
        forall|first: int, second: int|
            0 <= first < second < self.entries.len() ==> #[trigger] self.entries[first].name@
                != #[trigger] self.entries[second].name@
    }

    /// An environment without names.
    pub fn new() -> (environment: Environment)
        ensures
            environment.wf(),
            environment@ == Names::empty(),
    {
        let environment = Environment { entries: Vec::new() };
        assert(environment@ =~= Names::empty());
        environment
    }

    /// Where `name` is entered, if it is.
    fn position(&self, name: &String) -> (found: Option<usize>)
        ensures
            match found {
                Some(at) => at < self.entries.len() && self.entries[at as int].name@ == name@,
                None => !self.holds(name@),
            },
    {
        let mut at: usize = 0;
        while at < self.entries.len()
            invariant
                at <= self.entries.len(),
                forall|before: int| 0 <= before < at ==> self.entries[before].name@ != name@,
            decreases self.entries.len() - at,
        {
            if self.entries[at].name == *name {
                return Some(at);
            }
            at = at + 1;
        }
        None
    }

    /// In a consistent environment a name is entered at one place only.
    proof fn lemma_place(&self, name: Seq<char>, at: int)
        requires
            self.wf(),
            0 <= at < self.entries.len(),
            self.entries[at].name@ == name,
        ensures
            self.holds(name),
            self.place(name) == at,
    {
        let found = self.place(name);
        if found < at {
            assert(self.entries[found].name@ != self.entries[at].name@);
        } else if at < found {
            assert(self.entries[at].name@ != self.entries[found].name@);
        }
    }

    /// Putting an entry for `name` at `at`, which is where the name was
    /// entered or, if it was not, the end, gives the environment in which
    /// `name` stands for the new callable and every other name for what it
    /// stood for.
    proof fn lemma_entered(&self, after: &Environment, at: int, name: Seq<char>)
        requires
            self.wf(),
            0 <= at <= self.entries.len(),
            at < self.entries.len() ==> self.entries[at].name@ == name,
            at == self.entries.len() ==> !self.holds(name),
            at < self.entries.len() ==> after.entries.len() == self.entries.len(),
            at == self.entries.len() ==> after.entries.len() == self.entries.len() + 1,
            after.entries[at].name@ == name,
            forall|other: int|
                0 <= other < self.entries.len() && other != at ==> after.entries[other]
                    == self.entries[other],
        ensures
            after.wf(),
            after@ == self@.insert(name, after.entries[at].callable@),
    {
        assert forall|other: int|
            0 <= other < self.entries.len() && other != at implies (
        #[trigger] self.entries[other]).name@ != name by {
            if self.entries[other].name@ == name {
                if at < self.entries.len() {
                    self.lemma_place(name, other);
                    self.lemma_place(name, at);
                } else {
                    assert(self.holds(name));
                }
            }
        }
        assert(after.wf()) by {
            assert forall|first: int, second: int|
                0 <= first < second < after.entries.len() implies after.entries[first].name@
                != after.entries[second].name@ by {
                if first != at && second != at {
                    assert(self.entries[first].name@ != self.entries[second].name@);
                } else if first == at {
                    assert(self.entries[second].name@ != name);
                } else {
                    assert(self.entries[first].name@ != name);
                }
            }
        }
        let expected = self@.insert(name, after.entries[at].callable@);
        assert forall|key: Seq<char>| after@.dom().contains(key) == expected.dom().contains(
            key,
        ) by {
            if after.holds(key) && key != name {
                assert(self.entries[after.place(key)].name@ == key);
            }
            if self.holds(key) && key != name {
                assert(after.entries[self.place(key)].name@ == key);
            }
        }
        assert forall|key: Seq<char>| after@.dom().contains(key) implies #[trigger] after@[key]
            == expected[key] by {
            if key == name {
                after.lemma_place(key, at);
            } else {
                after.lemma_place(key, self.place(key));
            }
        }
        assert(after@ =~= expected);
    }

    /// Enters `callable` under `name`. What the name stood for before is
    /// replaced; every other name stands for what it stood for.
    pub fn register_fn(&mut self, name: &str, callable: Callable)
        requires
            old(self).wf(),
        ensures
            final(self).wf(),
            final(self)@ == old(self)@.insert(name@, callable@),
    {
        let ghost before = *self;
        let name = String::from_str(name);
        match self.position(&name) {
            Some(at) => {
                self.entries.set(at, Entry { name, callable });
                proof {
                    before.lemma_entered(&*self, at as int, name@);
                }
            },
            None => {
                self.entries.push(Entry { name, callable });
                proof {
                    before.lemma_entered(&*self, before.entries.len() as int, name@);
                }
            },
        }
    }

    /// What `name` stands for, if it is entered.
    pub fn get(&self, name: &str) -> (found: Option<&Callable>)
        requires
            self.wf(),
        ensures
            match found {
                Some(callable) => self@.dom().contains(name@) && callable@ == self@[name@],
                None => !self@.dom().contains(name@),
            },
    {
        let name = String::from_str(name);
        match self.position(&name) {
            Some(at) => {
                proof {
                    self.lemma_place(name@, at as int);
                }
                Some(&self.entries[at].callable)
            },
            None => None,
        }
    }

    /// What `name` stands for. Fails, for the call at `span`, where the name
    /// is not entered.
    pub fn lookup(&self, name: &str, span: Span) -> (found: Result<&Callable, RunError>)
        requires
            self.wf(),
        ensures
            match found {
                Ok(callable) => self@.dom().contains(name@) && callable@ == self@[name@],
                Err(error) => !self@.dom().contains(name@) && error == RunError::UndefinedCallable(
                    Some(span),
                ),
            },
    {
        match self.get(name) {
            Some(callable) => Ok(callable),
            None => Err(RunError::UndefinedCallable(Some(span))),
        }
    }
}

/// Of two callables registered under one name, the second is the one that
/// the name stands for, and the first leaves no trace: the environment is
/// as if only the second had been registered.
pub proof fn lemma_last_registration_wins(
    names: Names,
    name: Seq<char>,
    first: CallableView,
    second: CallableView,
)
    ensures
        names.insert(name, first).insert(name, second)[name] == second,
        names.insert(name, first).insert(name, second) == names.insert(name, second),
{
    assert(names.insert(name, first).insert(name, second) =~= names.insert(name, second));
}

} // verus!
