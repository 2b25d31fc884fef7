use dev_console::bridge::{count_arguments, marshal, Argument, Param};
use dev_console::environment::{Callable, Environment, HostFunction};
use dev_console::error::RunError;
use dev_console::format::{Piece, Rendering};
use dev_console::input::{check_console_inputs, ConsoleWantsKeyboardInput, ConsoleWantsMouseInput};
use dev_console::runner::{call, returned, Outcome};
use dev_console::span::{Span, Spanned};
use dev_console::stdlib::register;
use dev_console::store::Store;
use dev_console::value::Value;

fn number(value: f64) -> Value {
    Value::Number(value.to_bits())
}

fn console() -> Environment {
    let mut environment = Environment::new();
    register(&mut environment);
    environment
}

#[test]
fn calling_an_undefined_name_fails_with_the_span_of_the_call() {
    let environment = console();
    let store = Store::new();
    // The call `nope(1)` inside the input `x = nope(1) + 2`.
    let call_span = Span::new(4, 11);
    let argument = Spanned::new(Span::new(9, 10), number(1.0));
    assert_eq!(
        call(&environment, &store, "nope", vec![argument], call_span),
        Err(RunError::UndefinedCallable(Some(call_span)))
    );
    assert_eq!(
        environment.lookup("nope", call_span),
        Err(RunError::UndefinedCallable(Some(call_span)))
    );
    assert_eq!(RunError::UndefinedCallable(Some(call_span)).span(), Some(call_span));
}

#[test]
fn the_second_registration_under_a_name_is_the_one_reached() {
    let mut environment = console();
    let store = Store::new();
    environment.register_fn("spawn", Callable::Host(HostFunction { id: 1, params: vec![] }));
    environment.register_fn("spawn", Callable::Host(HostFunction { id: 2, params: vec![] }));
    assert_eq!(
        call(&environment, &store, "spawn", vec![], Span::new(0, 7)),
        Ok(Outcome::Invoke { function: 2, arguments: vec![] })
    );
    // The others are as they were.
    assert_eq!(environment.get("print"), Some(&Callable::Print));
    assert_eq!(environment.get("drop"), Some(&Callable::Drop));
}

#[test]
fn a_host_function_can_replace_a_console_callable() {
    let mut environment = console();
    let store = Store::new();
    environment.register_fn("print", Callable::Host(HostFunction { id: 9, params: vec![] }));
    assert_eq!(
        call(&environment, &store, "print", vec![], Span::new(0, 7)),
        Ok(Outcome::Invoke { function: 9, arguments: vec![] })
    );
    assert_eq!(environment.get("dbg"), Some(&Callable::Dbg));
}

#[test]
fn scenario_reference_then_drop() {
    let environment = console();
    let mut store = Store::new();
    // x = 5; r = &x
    let x = store.bind(number(5.0));
    let r = Value::Reference(x.reference());
    let span = Span::new(0, 12);
    let argument_span = Span::new(10, 11);
    assert_eq!(
        call(&environment, &store, "ref_depth", vec![Spanned::new(argument_span, r.clone())], span),
        Ok(Outcome::Depth(1))
    );
    // drop(x): the value moves out of the binding and into the call.
    let moved = store.release(x).unwrap();
    assert_eq!(
        call(&environment, &store, "drop", vec![Spanned::new(Span::new(5, 6), moved)], span),
        Ok(Outcome::Unit)
    );
    assert_eq!(
        call(&environment, &store, "ref_depth", vec![Spanned::new(argument_span, r)], span),
        Err(RunError::ReferenceToMovedData(Some(argument_span)))
    );
}

#[test]
fn call_print_and_dbg_write_a_line() {
    let environment = console();
    let store = Store::new();
    let span = Span::new(0, 10);
    let inner = Span::new(6, 9);
    assert_eq!(
        call(
            &environment,
            &store,
            "print",
            vec![Spanned::new(inner, Value::String("hey".to_string()))],
            span
        ),
        Ok(Outcome::Written(Rendering { pieces: vec![Piece::Text("hey".to_string())] }))
    );
    assert_eq!(
        call(&environment, &store, "dbg", vec![Spanned::new(inner, Value::Boolean(true))], span),
        Ok(Outcome::Written(Rendering {
            pieces: vec![Piece::Text("Value::Boolean(true)".to_string())]
        }))
    );
}

#[test]
fn call_with_the_wrong_number_of_values_is_a_mismatch() {
    let environment = console();
    let store = Store::new();
    let span = Span::new(2, 20);
    let one = || Spanned::new(Span::new(3, 4), number(1.0));
    for name in ["print", "dbg", "ref_depth", "drop"] {
        assert_eq!(
            call(&environment, &store, name, vec![], span),
            Err(RunError::ArityOrTypeMismatch(Some(span)))
        );
        assert_eq!(
            call(&environment, &store, name, vec![one(), one()], span),
            Err(RunError::ArityOrTypeMismatch(Some(span)))
        );
    }
}

#[test]
fn call_of_a_host_function_fits_the_values_to_its_parameters() {
    let mut environment = console();
    let store = Store::new();
    let params = vec![Param::World, Param::Value, Param::Registry, Param::Spanned];
    environment.register_fn("warp", Callable::Host(HostFunction { id: 7, params }));
    let span = Span::new(0, 20);
    let first = Spanned::new(Span::new(9, 10), number(1.0));
    let second = Spanned::new(Span::new(12, 18), Value::String("there".to_string()));
    assert_eq!(
        call(&environment, &store, "warp", vec![first, second], span),
        Ok(Outcome::Invoke {
            function: 7,
            arguments: vec![
                Argument::World,
                Argument::Value(number(1.0)),
                Argument::Registry,
                Argument::Spanned(Spanned::new(
                    Span::new(12, 18),
                    Value::String("there".to_string()),
                )),
            ],
        })
    );
    let only = Spanned::new(Span::new(9, 10), number(1.0));
    assert_eq!(
        call(&environment, &store, "warp", vec![only], span),
        Err(RunError::ArityOrTypeMismatch(Some(span)))
    );
}

#[test]
fn marshal_neither_drops_nor_invents_values() {
    let span = Span::new(1, 2);
    let value = |at: usize| Spanned::new(Span::new(at, at + 1), number(at as f64));
    let params = vec![Param::Value, Param::Value];
    assert_eq!(count_arguments(&params), 2);
    assert_eq!(
        marshal(&params, vec![value(0), value(1)], span),
        Ok(vec![Argument::Value(number(0.0)), Argument::Value(number(1.0))])
    );
    assert_eq!(
        marshal(&params, vec![value(0)], span),
        Err(RunError::ArityOrTypeMismatch(Some(span)))
    );
    assert_eq!(
        marshal(&params, vec![value(0), value(1), value(2)], span),
        Err(RunError::ArityOrTypeMismatch(Some(span)))
    );
    let handles = vec![Param::World, Param::Registry];
    assert_eq!(count_arguments(&handles), 0);
    assert_eq!(marshal(&handles, vec![], span), Ok(vec![Argument::World, Argument::Registry]));
    assert_eq!(marshal(&vec![], vec![], span), Ok(vec![]));
}

#[test]
fn what_a_host_function_returns_is_passed_on_unchanged() {
    assert_eq!(returned(Ok(None)), Ok(Outcome::Unit));
    assert_eq!(returned(Ok(Some(number(3.0)))), Ok(Outcome::Value(number(3.0))));
    let own = RunError::FormattingFailure(Some(Span::new(40, 41)));
    assert_eq!(returned(Err(own)), Err(own));
    let bare = RunError::ArityOrTypeMismatch(None);
    assert_eq!(returned(Err(bare)), Err(bare));
    assert_eq!(bare.span(), None);
}

#[test]
fn console_inputs_follow_the_window() {
    let mut mouse = ConsoleWantsMouseInput::default();
    let mut keyboard = ConsoleWantsKeyboardInput::default();
    assert_eq!(mouse, ConsoleWantsMouseInput(false));
    assert_eq!(keyboard, ConsoleWantsKeyboardInput(false));
    check_console_inputs(&mut mouse, &mut keyboard, true, false, false);
    assert_eq!((mouse.0, keyboard.0), (true, false));
    check_console_inputs(&mut mouse, &mut keyboard, false, true, true);
    assert_eq!((mouse.0, keyboard.0), (true, true));
    check_console_inputs(&mut mouse, &mut keyboard, false, false, true);
    assert_eq!((mouse.0, keyboard.0), (false, true));
    check_console_inputs(&mut mouse, &mut keyboard, false, false, false);
    assert_eq!((mouse.0, keyboard.0), (false, false));
}

#[test]
fn marshal_hands_a_typed_parameter_only_its_own_variant() {
    let span = Span::new(0, 30);
    let at = |value: Value| Spanned::new(Span::new(5, 6), value);
    let params = vec![Param::Number, Param::World, Param::String, Param::Boolean];
    assert_eq!(
        marshal(
            &params,
            vec![at(number(2.0)), at(Value::String("two".to_string())), at(Value::Boolean(true))],
            span
        ),
        Ok(vec![
            Argument::Number(2.0f64.to_bits()),
            Argument::World,
            Argument::String("two".to_string()),
            Argument::Boolean(true),
        ])
    );
    // The right count, the wrong shapes.
    assert_eq!(
        marshal(
            &params,
            vec![at(Value::String("two".to_string())), at(number(2.0)), at(Value::Boolean(true))],
            span
        ),
        Err(RunError::ArityOrTypeMismatch(Some(span)))
    );
    assert_eq!(
        marshal(&vec![Param::Boolean], vec![at(number(1.0))], span),
        Err(RunError::ArityOrTypeMismatch(Some(span)))
    );
    // A reference to a number is no number.
    let mut store = Store::new();
    let x = store.bind(number(1.0));
    assert_eq!(
        marshal(&vec![Param::Number], vec![at(Value::Reference(x.reference()))], span),
        Err(RunError::ArityOrTypeMismatch(Some(span)))
    );
    assert_eq!(
        marshal(&vec![Param::Value], vec![at(Value::Reference(x.reference()))], span),
        Ok(vec![Argument::Value(Value::Reference(x.reference()))])
    );
}

#[test]
fn call_of_a_host_function_with_the_wrong_shape_is_a_mismatch() {
    let mut environment = console();
    let store = Store::new();
    let set_score = HostFunction { id: 3, params: vec![Param::Number] };
    environment.register_fn("set_score", Callable::Host(set_score));
    let span = Span::new(0, 16);
    let text = Spanned::new(Span::new(10, 15), Value::String("ten".to_string()));
    assert_eq!(
        call(&environment, &store, "set_score", vec![text], span),
        Err(RunError::ArityOrTypeMismatch(Some(span)))
    );
    let ten = Spanned::new(Span::new(10, 12), number(10.0));
    assert_eq!(
        call(&environment, &store, "set_score", vec![ten], span),
        Ok(Outcome::Invoke { function: 3, arguments: vec![Argument::Number(10.0f64.to_bits())] })
    );
}
