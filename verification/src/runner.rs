//! One call of the console: from a name and a list of values to what the
//! call gives, or to what the host must do for it.

use vstd::prelude::*;
use crate::bridge::{
    argument_views,
    fits,
    marshal,
    marshalled,
    value_views,
    Argument,
    ArgumentView,
    Param,
};
use crate::chain::Cells;
use crate::environment::{signature, Callable, CallableView, Environment, Names};
use crate::error::RunError;
use crate::format::{PieceView, Rendering};
use crate::span::{Span, Spanned};
use crate::stdlib::{dbg, depth_of, drop, dump_of, print, print_of, ref_depth};
use crate::store::Store;
use crate::value::{Value, ValueView};

verus! {

/// What a call comes to.
#[derive(Debug, PartialEq, Eq)]
pub enum Outcome {
    /// The call gave nothing.
    Unit,
    /// The call gave a value.
    Value(Value),
    /// The call gave a count, which the console shows as a number.
    Depth(u64),
    /// The call gave a line for the log.
    Written(Rendering),
    /// The call is to a function of the host: the host runs the function
    /// `function` on `arguments`.
    Invoke { function: u64, arguments: Vec<Argument> },
}

/// What an [`Outcome`] is, with what it holds by its view.
pub enum OutcomeView {
    Unit,
    Value(ValueView),
    Depth(nat),
    Written(Seq<PieceView>),
    Invoke { function: u64, arguments: Seq<ArgumentView> },
}

impl View for Outcome {
    type V = OutcomeView;

    open spec fn view(&self) -> OutcomeView {
        match self {
            Outcome::Unit => OutcomeView::Unit,
            Outcome::Value(value) => OutcomeView::Value(value@),
            Outcome::Depth(depth) => OutcomeView::Depth(*depth as nat),
            Outcome::Written(rendering) => OutcomeView::Written(rendering@),
            Outcome::Invoke { function, arguments } => OutcomeView::Invoke {
                function: *function,
                arguments: argument_views(arguments@),
            },
        }
    }
}

/// The result of a call, by the view of its outcome.
pub open spec fn outcome_view(result: Result<Outcome, RunError>) -> Result<OutcomeView, RunError> {
    match result {
        Ok(outcome) => Ok(outcome@),
        Err(error) => Err(error),
    }
}

/// What calling `name` with `values` comes to, among `names` and `cells`, for
/// the call at `span`. A name that is not entered is an undefined callable;
/// values that do not fit the parameters of the callable are a mismatch; a
/// callable of the console gives its result or its failure; a function of
/// the host is to be run on the values, fitted to its parameters.
pub open spec fn call_of(
    names: Names,
    cells: Cells,
    name: Seq<char>,
    values: Seq<Spanned<ValueView>>,
    span: Span,
) -> Result<OutcomeView, RunError> {
    if !names.dom().contains(name) {
        Err(RunError::UndefinedCallable(Some(span)))
    } else if !fits(signature(names[name]), values) {
        Err(RunError::ArityOrTypeMismatch(Some(span)))
    } else {
        match names[name] {
            CallableView::Print => match print_of(cells, values[0].value, values[0].span) {
                Ok(written) => Ok(OutcomeView::Written(written)),
                Err(error) => Err(error),
            },
            CallableView::Dbg => Ok(OutcomeView::Written(dump_of(values[0].value))),
            CallableView::RefDepth => match depth_of(cells, values[0].value, values[0].span) {
                Ok(depth) => Ok(OutcomeView::Depth(depth)),
                Err(error) => Err(error),
            },
            CallableView::Drop => Ok(OutcomeView::Unit),
            CallableView::Host(function) => Ok(
                OutcomeView::Invoke {
                    function: function.id,
                    arguments: marshalled(function.params, values),
                },
            ),
        }
    }
}

/// Each callable of the console takes one argument, of any kind.
pub proof fn lemma_console_callables_take_one(
    callable: CallableView,
    values: Seq<Spanned<ValueView>>,
)
    requires
        !(callable is Host),
    ensures
        fits(signature(callable), values) <==> values.len() == 1,
{
    let params = signature(callable);
    reveal_with_fuel(fits, 4);
    if callable is Print {
        assert(params.drop_last() =~= seq![Param::Spanned, Param::World]);
        assert(params.drop_last().drop_last() =~= seq![Param::Spanned]);
        assert(params.drop_last().drop_last().drop_last() =~= Seq::<Param>::empty());
    } else {
        assert(params.drop_last() =~= Seq::<Param>::empty());
    }
}

/// The one value of a call that must bring exactly one. Fails, for the call
/// at `span`, where the call brings none or more.
fn single(values: Vec<Spanned<Value>>, span: Span) -> (result: Result<Spanned<Value>, RunError>)
    ensures
        match result {
            Ok(value) => values@.len() == 1 && value@ == value_views(values@)[0],
            Err(error) => values@.len() != 1 && error == RunError::ArityOrTypeMismatch(Some(span)),
        },
{
    let mut values = values;
    if values.len() != 1 {
        return Err(RunError::ArityOrTypeMismatch(Some(span)));
    }
    Ok(values.pop().unwrap())
}

/// Calls `name` with `values`, for the call expression at `span`.
pub fn call(
    environment: &Environment,
    store: &Store,
    name: &str,
    values: Vec<Spanned<Value>>,
    span: Span,
) -> (result: Result<Outcome, RunError>)
    requires
        environment.wf(),
        store.wf(),
    ensures
        outcome_view(result) == call_of(environment@, store@, name@, value_views(values@), span),
{
    let callable = match environment.lookup(name, span) {
        Ok(callable) => callable,
        Err(error) => {
            return Err(error);
        },
    };
    proof {
        if !(callable@ is Host) {
            lemma_console_callables_take_one(callable@, value_views(values@));
        }
    }
    match callable {
        Callable::Print => match single(values, span) {
            Ok(value) => match print(store, value) {
                Ok(written) => Ok(Outcome::Written(written)),
                Err(error) => Err(error),
            },
            Err(error) => Err(error),
        },
        Callable::Dbg => match single(values, span) {
            Ok(value) => Ok(Outcome::Written(dbg(value.value))),
            Err(error) => Err(error),
        },
        Callable::RefDepth => match single(values, span) {
            Ok(value) => match ref_depth(store, value) {
                Ok(depth) => Ok(Outcome::Depth(depth)),
                Err(error) => Err(error),
            },
            Err(error) => Err(error),
        },
        Callable::Drop => match single(values, span) {
            Ok(value) => {
                drop(value.value);
                Ok(Outcome::Unit)
            },
            Err(error) => Err(error),
        },
        Callable::Host(function) => match marshal(&function.params, values, span) {
            Ok(arguments) => Ok(Outcome::Invoke { function: function.id, arguments }),
            Err(error) => Err(error),
        },
    }
}

/// What a function of the host gave, as the outcome of the call: its value,
/// nothing, or its own failure, unchanged.
pub fn returned(given: Result<Option<Value>, RunError>) -> (result: Result<Outcome, RunError>)
    ensures
        match given {
            Ok(Some(value)) => result == Ok::<Outcome, RunError>(Outcome::Value(value)),
            Ok(None) => result == Ok::<Outcome, RunError>(Outcome::Unit),
            Err(error) => result == Err::<Outcome, RunError>(error),
        },
{
    match given {
        Ok(Some(value)) => Ok(Outcome::Value(value)),
        Ok(None) => Ok(Outcome::Unit),
        Err(error) => Err(error),
    }
}

/// A call of a name that is not entered fails as an undefined callable, with
/// the span of the call, whatever the values and the cells.
pub proof fn lemma_undefined_name_fails_at_call(
    names: Names,
    cells: Cells,
    name: Seq<char>,
    values: Seq<Spanned<ValueView>>,
    span: Span,
)
    requires
        !names.dom().contains(name),
    ensures
        call_of(names, cells, name, values, span) == Err::<OutcomeView, RunError>(
            RunError::UndefinedCallable(Some(span)),
        ),
{
}

/// After two functions of the host were registered under one name, a call
/// of the name with fitting values reaches the second.
pub proof fn lemma_call_reaches_last_registration(
    names: Names,
    cells: Cells,
    name: Seq<char>,
    first: CallableView,
    second: CallableView,
    values: Seq<Spanned<ValueView>>,
    span: Span,
)
    requires
        second is Host,
        fits(second->Host_0.params, values),
    ensures
        call_of(names.insert(name, first).insert(name, second), cells, name, values, span) == Ok::<
            OutcomeView,
            RunError,
        >(
            OutcomeView::Invoke {
                function: second->Host_0.id,
                arguments: marshalled(second->Host_0.params, values),
            },
        ),
{
}

} // verus!
