//! The bridge between a function of the host, with parameters of fixed
//! kinds, and a call from the console, with a list of values.

use vstd::prelude::*;
use crate::error::RunError;
use crate::span::{Span, Spanned};
use crate::value::{Value, ValueView};

verus! {

/// The kind of one parameter of a callable.
#[derive(Clone, Copy, Debug, PartialEq, Eq, Structural)]
pub enum Param {
    /// Any value, taken from the arguments of the call.
    Value,
    /// Any value with its span, taken from the arguments of the call.
    Spanned,
    /// A number, taken from the arguments of the call.
    Number,
    /// A text, taken from the arguments of the call.
    String,
    /// A truth value, taken from the arguments of the call.
    Boolean,
    /// The live state of the host application, supplied by the host.
    World,
    /// The host's registry of types, supplied by the host.
    Registry,
}

impl Param {
    /// The parameter is filled from the arguments of the call.
    pub open spec fn spec_takes_argument(self) -> bool {
        !(self is World || self is Registry)
    }

    /// Whether the parameter is filled from the arguments of the call.
    #[verifier::when_used_as_spec(spec_takes_argument)]
    pub fn takes_argument(self) -> (takes: bool)
        ensures
            takes == self.spec_takes_argument(),
    {
        match self {
            Param::World => false,
            Param::Registry => false,
            _ => true,
        }
    }

    /// The parameter can be filled with `value`: a parameter for any value
    /// with every value, and a parameter for one variant with the values of
    /// that variant.
    pub open spec fn accepts(self, value: ValueView) -> bool {
        match self {
            Param::Value => true,
            Param::Spanned => true,
            Param::Number => value is Number,
            Param::String => value is String,
            Param::Boolean => value is Boolean,
            Param::World => false,
            Param::Registry => false,
        }
    }

    /// What the parameter is handed when the call brings `value` for it.
    pub open spec fn filled(self, value: Spanned<ValueView>) -> ArgumentView {
        match (self, value.value) {
            (Param::Spanned, _) => ArgumentView::Spanned(value),
            (Param::Number, ValueView::Number(bits)) => ArgumentView::Number(bits),
            (Param::String, ValueView::String(text)) => ArgumentView::String(text),
            (Param::Boolean, ValueView::Boolean(truth)) => ArgumentView::Boolean(truth),
            _ => ArgumentView::Value(value.value),
        }
    }

    /// What a parameter that takes no argument is handed: its handle.
    pub open spec fn handle(self) -> ArgumentView {
        match self {
            Param::World => ArgumentView::World,
            _ => ArgumentView::Registry,
        }
    }

    /// Fills the parameter with `value`, where it accepts it.
    fn fill(self, value: Spanned<Value>) -> (argument: Option<Argument>)
        requires
            self.takes_argument(),
        ensures
            match argument {
                Some(argument) => self.accepts(value@.value) && argument@ == self.filled(value@),
                None => !self.accepts(value@.value),
            },
    {
        match self {
            Param::Spanned => Some(Argument::Spanned(value)),
            Param::Number => match value.value {
                Value::Number(bits) => Some(Argument::Number(bits)),
                _ => None,
            },
            Param::String => match value.value {
                Value::String(text) => Some(Argument::String(text)),
                _ => None,
            },
            Param::Boolean => match value.value {
                Value::Boolean(truth) => Some(Argument::Boolean(truth)),
                _ => None,
            },
            _ => Some(Argument::Value(value.value)),
        }
    }
}

/// What is handed to a function of the host for one of its parameters.
#[derive(Debug, PartialEq, Eq)]
pub enum Argument {
    Value(Value),
    Spanned(Spanned<Value>),
    Number(u64),
    String(String),
    Boolean(bool),
    World,
    Registry,
}

/// What an [`Argument`] is, with its value by its view.
pub enum ArgumentView {
    Value(ValueView),
    Spanned(Spanned<ValueView>),
    Number(u64),
    String(Seq<char>),
    Boolean(bool),
    World,
    Registry,
}

impl View for Argument {
    type V = ArgumentView;

    open spec fn view(&self) -> ArgumentView {
        match self {
            Argument::Value(value) => ArgumentView::Value(value@),
            Argument::Spanned(spanned) => ArgumentView::Spanned(spanned@),
            Argument::Number(bits) => ArgumentView::Number(*bits),
            Argument::String(text) => ArgumentView::String(text@),
            Argument::Boolean(truth) => ArgumentView::Boolean(*truth),
            Argument::World => ArgumentView::World,
            Argument::Registry => ArgumentView::Registry,
        }
    }
}

/// The views of `arguments`, one for one.
pub open spec fn argument_views(arguments: Seq<Argument>) -> Seq<ArgumentView> {
    arguments.map_values(|argument: Argument| argument@)
}

/// The views of the values of a call, one for one.
pub open spec fn value_views(values: Seq<Spanned<Value>>) -> Seq<Spanned<ValueView>> {
    values.map_values(|value: Spanned<Value>| value@)
}

/// How many arguments a call must bring for `params`.
pub open spec fn arity(params: Seq<Param>) -> nat
    decreases params.len(),
{
    if params.len() == 0 {
        0
    } else {
        arity(params.drop_last()) + if params.last().takes_argument() {
            1nat
        } else {
            0nat
        }
    }
}

/// The values of a call fit `params`: there is one value for each parameter
/// that takes an argument, in order, none is left over, and each parameter
/// accepts its value.
pub open spec fn fits(params: Seq<Param>, values: Seq<Spanned<ValueView>>) -> bool
    decreases params.len(),
{
    if params.len() == 0 {
        values.len() == 0
    } else if params.last().takes_argument() {
        &&& values.len() > 0
        &&& params.last().accepts(values.last().value)
        &&& fits(params.drop_last(), values.drop_last())
    } else {
        fits(params.drop_last(), values)
    }
}

/// What is handed over for `params` when the call brings `values`: each
/// parameter that takes an argument gets the next value, in order, and each
/// other parameter its handle.
pub open spec fn marshalled(params: Seq<Param>, values: Seq<Spanned<ValueView>>) -> Seq<
    ArgumentView,
>
    decreases params.len(),
{
    if params.len() == 0 {
        Seq::empty()
    } else if params.last().takes_argument() {
        marshalled(params.drop_last(), values.drop_last()).push(
            params.last().filled(values.last()),
        )
    } else {
        marshalled(params.drop_last(), values).push(params.last().handle())
    }
}

/// Values that fit are as many as the parameters take.
pub proof fn lemma_fitting_values_match_arity(params: Seq<Param>, values: Seq<Spanned<ValueView>>)
    requires
        fits(params, values),
    ensures
        arity(params) == values.len(),
    decreases params.len(),
{
    if params.len() > 0 {
        if params.last().takes_argument() {
            lemma_fitting_values_match_arity(params.drop_last(), values.drop_last());
        } else {
            lemma_fitting_values_match_arity(params.drop_last(), values);
        }
    }
}

/// The number of arguments that a call must bring for `params`.
pub fn count_arguments(params: &Vec<Param>) -> (count: usize)
    ensures
        count == arity(params@),
{
    let mut count: usize = 0;
    let mut at: usize = 0;
    while at < params.len()
        invariant
            at <= params.len(),
            count <= at,
            count == arity(params@.take(at as int)),
        decreases params.len() - at,
    {
        assert(params@.take(at + 1).drop_last() =~= params@.take(at as int));
        if params[at].takes_argument() {
            count = count + 1;
        }
        at = at + 1;
    }
    assert(params@.take(at as int) =~= params@);
    count
}

/// Fits the values of a call to `params`. Fails, for the call at `span`,
/// where the values do not fit: no value is left out, none is made up, and
/// none is handed to a parameter that does not accept it.
pub fn marshal(params: &Vec<Param>, values: Vec<Spanned<Value>>, span: Span) -> (result: Result<
    Vec<Argument>,
    RunError,
>)
    ensures
        match result {
            Ok(arguments) => {
                &&& fits(params@, value_views(values@))
                &&& argument_views(arguments@) == marshalled(params@, value_views(values@))
            },
            Err(error) => {
                &&& !fits(params@, value_views(values@))
                &&& error == RunError::ArityOrTypeMismatch(Some(span))
            },
        },
{
    let ghost given = value_views(values@);
    let mut rest = values;
    let mut arguments: Vec<Argument> = Vec::new();
    let mut at: usize = params.len();
    proof {
        assert(params@.take(params@.len() as int) =~= params@);
        assert(argument_views(arguments@).reverse() =~= Seq::<ArgumentView>::empty());
        assert(marshalled(params@, given) + Seq::<ArgumentView>::empty() =~= marshalled(
            params@,
            given,
        ));
    }
    // The parameters are fitted from the last to the first, and put in order
    // at the end.
    while at > 0
        invariant
            at <= params.len(),
            given == value_views(values@),
            fits(params@, given) == fits(params@.take(at as int), value_views(rest@)),
            marshalled(params@, given) == marshalled(
                params@.take(at as int),
                value_views(rest@),
            ) + argument_views(arguments@).reverse(),
        decreases at,
    {
        let ghost before = arguments@;
        let ghost values_before = rest@;
        let ghost front = params@.take(at as int);
        assert(front.drop_last() =~= params@.take(at - 1));
        at = at - 1;
        let param = params[at];
        assert(param == front.last());
        let argument = if param.takes_argument() {
            let value = match rest.pop() {
                Some(value) => value,
                None => {
                    assert(value_views(values_before).len() == 0);
                    assert(!fits(front, value_views(values_before)));
                    return Err(RunError::ArityOrTypeMismatch(Some(span)));
                },
            };
            proof {
                assert(value_views(values_before).drop_last() =~= value_views(rest@));
                assert(value_views(values_before).last() == value@);
            }
            match param.fill(value) {
                Some(argument) => {
                    assert(argument@ == param.filled(value_views(values_before).last()));
                    argument
                },
                None => {
                    assert(!fits(front, value_views(values_before)));
                    return Err(RunError::ArityOrTypeMismatch(Some(span)));
                },
            }
        } else {
            match param {
                Param::World => Argument::World,
                _ => Argument::Registry,
            }
        };
        arguments.push(argument);
        proof {
            assert(argument_views(arguments@) =~= argument_views(before).push(argument@));
            assert(argument_views(arguments@).reverse() =~= seq![argument@] + argument_views(
                before,
            ).reverse());
            assert(marshalled(front, value_views(values_before)) == marshalled(
                params@.take(at as int),
                value_views(rest@),
            ).push(argument@));
            assert(marshalled(params@.take(at as int), value_views(rest@)).push(argument@)
                + argument_views(before).reverse() =~= marshalled(
                params@.take(at as int),
                value_views(rest@),
            ) + argument_views(arguments@).reverse());
        }
    }
    if rest.len() != 0 {
        assert(value_views(rest@).len() != 0);
        return Err(RunError::ArityOrTypeMismatch(Some(span)));
    }
    assert(value_views(rest@).len() == 0);
    proof {
        assert(marshalled(params@.take(0), value_views(rest@)) =~= Seq::<ArgumentView>::empty());
        assert(Seq::<ArgumentView>::empty() + argument_views(arguments@).reverse()
            =~= argument_views(arguments@).reverse());
    }
    Ok(reversed(arguments))
}

/// The same arguments, last first.
fn reversed(arguments: Vec<Argument>) -> (result: Vec<Argument>)
    ensures
        argument_views(result@) == argument_views(arguments@).reverse(),
{
    let mut rest = arguments;
    let mut result: Vec<Argument> = Vec::new();
    while rest.len() > 0
        invariant
            argument_views(result@) + argument_views(rest@).reverse() == argument_views(
                arguments@,
            ).reverse(),
        decreases rest.len(),
    {
        let ghost before = result@;
        let ghost rest_before = rest@;
        let argument = rest.pop().unwrap();
        result.push(argument);
        proof {
            assert(argument_views(result@) =~= argument_views(before).push(argument@));
            assert(argument_views(rest_before).reverse() =~= seq![argument@] + argument_views(
                rest@,
            ).reverse());
            assert(argument_views(result@) + argument_views(rest@).reverse() =~= argument_views(
                before,
            ) + argument_views(rest_before).reverse());
        }
    }
    assert(argument_views(rest@).reverse() =~= Seq::<ArgumentView>::empty());
    assert(argument_views(result@) + Seq::<ArgumentView>::empty() =~= argument_views(result@));
    result
}

} // verus!
