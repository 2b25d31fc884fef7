//! The dynamic values of the console.

use vstd::prelude::*;

verus! {

/// A weak alias to a cell of a store: it names the cell and does not keep it
/// alive.
#[derive(Clone, Copy, Debug, PartialEq, Eq, Structural)]
pub struct Reference {
    pub(crate) index: usize,
    pub(crate) generation: u64,
}

/// The strong handle of a binding: whoever holds it is one of the owners of
/// the cell. The cell lives until each of its owners has given its handle
/// back to the store; a handle that merely goes out of scope keeps the cell
/// alive.
#[derive(Debug, PartialEq, Eq)]
pub struct Owner {
    pub(crate) cell: Reference,
}

impl Owner {
    /// The cell this handle owns, as a reference names it.
    pub open(crate) spec fn spec_reference(&self) -> Reference {
        self.cell
    }

    /// Takes an alias to the owned cell.
    #[verifier::when_used_as_spec(spec_reference)]
    pub fn reference(&self) -> (reference: Reference)
        ensures
            reference == self.spec_reference(),
    {
        self.cell
    }
}

/// A value that only the host application can look into.
#[derive(Debug, PartialEq, Eq)]
pub struct HostValue {
    /// The name under which the host's type registry knows the value's type.
    pub type_path: String,
    /// Where inside the host's state the value is found.
    pub path: String,
}

/// What a [`HostValue`] is, with its texts as sequences of characters.
pub struct HostValueView {
    pub type_path: Seq<char>,
    pub path: Seq<char>,
}

impl View for HostValue {
    type V = HostValueView;

    open spec fn view(&self) -> HostValueView {
        HostValueView { type_path: self.type_path@, path: self.path@ }
    }
}

impl Clone for HostValue {
    fn clone(&self) -> (copy: HostValue)
        ensures
            copy@ == self@,
    {
        HostValue { type_path: self.type_path.clone(), path: self.path.clone() }
    }
}

/// A console value.
#[derive(Debug, PartialEq, Eq)]
pub enum Value {
    /// A double-precision number, held as its IEEE 754 bit pattern.
    Number(u64),
    /// A text.
    String(String),
    /// A truth value.
    Boolean(bool),
    /// An alias to the cell of some binding.
    Reference(Reference),
    /// A value of the host application.
    Host(HostValue),
}

/// What a [`Value`] is, with its texts as sequences of characters.
pub enum ValueView {
    Number(u64),
    String(Seq<char>),
    Boolean(bool),
    Reference(Reference),
    Host(HostValueView),
}

impl View for Value {
    type V = ValueView;

    open spec fn view(&self) -> ValueView {
        match self {
            Value::Number(bits) => ValueView::Number(*bits),
            Value::String(text) => ValueView::String(text@),
            Value::Boolean(truth) => ValueView::Boolean(*truth),
            Value::Reference(reference) => ValueView::Reference(*reference),
            Value::Host(host) => ValueView::Host(host@),
        }
    }
}

impl Clone for Value {
    fn clone(&self) -> (copy: Value)
        ensures
            copy@ == self@,
    {
        match self {
            Value::Number(bits) => Value::Number(*bits),
            Value::String(text) => Value::String(text.clone()),
            Value::Boolean(truth) => Value::Boolean(*truth),
            Value::Reference(reference) => Value::Reference(*reference),
            Value::Host(host) => Value::Host(host.clone()),
        }
    }
}

} // verus!
