//! Turning values into what the console shows.
//!
//! A rendering is text with gaps: what only the host application can print (a
//! number, a value of the host's own) is handed out as it is, in its place
//! among the text.

use vstd::prelude::*;
use crate::chain::{resolve, Cells, Chain};
use crate::error::RunError;
use crate::span::{Span, Spanned};
use crate::store::{failure, Store};
use crate::value::{HostValue, HostValueView, Value, ValueView};

verus! {

/// One part of a rendering.
#[derive(Debug, PartialEq, Eq)]
pub enum Piece {
    /// Finished text.
    Text(String),
    /// A number, by its bit pattern, for the host to print as the console
    /// shows numbers.
    Number(u64),
    /// A number, by its bit pattern, for the host to print in debug form.
    DebugNumber(u64),
    /// A value of the host's, for the host's type registry to print, with
    /// the span of the expression that is at fault where the registry cannot.
    Host(Spanned<HostValue>),
}

/// What a [`Piece`] is, with its texts as sequences of characters.
pub enum PieceView {
    Text(Seq<char>),
    Number(u64),
    DebugNumber(u64),
    Host(Spanned<HostValueView>),
}

impl View for Piece {
    type V = PieceView;

    open spec fn view(&self) -> PieceView {
        match self {
            Piece::Text(text) => PieceView::Text(text@),
            Piece::Number(bits) => PieceView::Number(*bits),
            Piece::DebugNumber(bits) => PieceView::DebugNumber(*bits),
            Piece::Host(host) => PieceView::Host(host@),
        }
    }
}

/// The parts of one line of output, in order.
#[derive(Debug, PartialEq, Eq)]
pub struct Rendering {
    pub pieces: Vec<Piece>,
}

impl View for Rendering {
    type V = Seq<PieceView>;

    open spec fn view(&self) -> Seq<PieceView> {
        self.pieces@.map_values(|piece: Piece| piece@)
    }
}

impl Rendering {
    /// The rendering without parts.
    pub fn new() -> (rendering: Rendering)
        ensures
            rendering@ == Seq::<PieceView>::empty(),
    {
        let rendering = Rendering { pieces: Vec::new() };
        assert(rendering@ =~= Seq::<PieceView>::empty());
        rendering
    }

    /// Adds `piece` at the end.
    pub fn push(&mut self, piece: Piece)
        ensures
            final(self)@ == old(self)@.push(piece@),
    {
        self.pieces.push(piece);
        assert(self@ =~= old(self)@.push(piece@));
    }

    /// The rendering that is `text` and nothing else.
    pub fn text(text: String) -> (rendering: Rendering)
        ensures
            rendering@ == seq![PieceView::Text(text@)],
    {
        let mut rendering = Rendering::new();
        rendering.push(Piece::Text(text));
        rendering
    }
}

/// The debug form of the text `text`: what std's `Debug` writes for it, in
/// double quotes and with the characters escaped that `Debug` escapes.
pub uninterp spec fn debug_text(text: Seq<char>) -> Seq<char>;

/// Calls std's `Debug` for a text, through `format!`. The contract claims
/// only that what comes back is a function of the characters of `text`, and
/// gives that function its name; what `Debug` escapes, and how, is std's to
/// say and is not proved here.
#[verifier::external_body]
pub(crate) fn debug_of(text: &String) -> (shown: String)
    ensures
        shown@ == debug_text(text@),
{
    format!("{:?}", text)
}

/// `text` between double quotes.
pub open spec fn quoted(text: Seq<char>) -> Seq<char> {
    "\""@ + text + "\""@
}

/// How a truth value reads.
pub open spec fn truth_text(truth: bool) -> Seq<char> {
    if truth {
        "true"@
    } else {
        "false"@
    }
}

/// What the console shows for a value that is no reference, in the
/// expression at `span`: a text in quotes, a truth value by its name, and a
/// number or a host value for the host to print.
pub open spec fn display(value: ValueView, span: Span) -> Seq<PieceView> {
    match value {
        ValueView::Number(bits) => seq![PieceView::Number(bits)],
        ValueView::String(text) => seq![PieceView::Text(quoted(text))],
        ValueView::Boolean(truth) => seq![PieceView::Text(truth_text(truth))],
        ValueView::Host(host) => seq![PieceView::Host(Spanned { span, value: host })],
        ValueView::Reference(_) => Seq::empty(),
    }
}

/// What formatting `value` gives among `cells`, for the expression at `span`:
/// what the console shows for the value at the end of its references, or the
/// failure to get there.
pub open spec fn format_of(cells: Cells, value: ValueView, span: Span) -> Result<
    Seq<PieceView>,
    RunError,
> {
    match resolve(cells, value) {
        Chain::Ends { value: reached, .. } => Ok(display(reached, span)),
        chain => Err(failure(chain, span)),
    }
}

/// A result of rendering, by the view of what was rendered.
pub open spec fn rendered(result: Result<Rendering, RunError>) -> Result<Seq<PieceView>, RunError> {
    match result {
        Ok(rendering) => Ok(rendering@),
        Err(error) => Err(error),
    }
}

/// The text `text` between double quotes.
pub fn quote(text: &String) -> (result: String)
    ensures
        result@ == quoted(text@),
{
    let mut result = String::from_str("\"");
    result.append(text.as_str());
    result.append("\"");
    result
}

impl Value {
    /// Formats the value for the console, following references through
    /// `store`. Fails, for the expression at `span`, where a reference on the
    /// way has lost its cell, and where the references run in a circle.
    pub fn try_format(&self, span: Span, store: &Store) -> (result: Result<Rendering, RunError>)
        requires
            store.wf(),
        ensures
            rendered(result) == format_of(store@, self@, span),
    {
        match store.resolve(self, span) {
            Ok((reached, _)) => {
                let mut rendering = Rendering::new();
                match reached {
                    Value::Number(bits) => {
                        rendering.push(Piece::Number(*bits));
                    },
                    Value::String(text) => {
                        rendering.push(Piece::Text(quote(text)));
                    },
                    Value::Boolean(truth) => {
                        let text = if *truth {
                            String::from_str("true")
                        } else {
                            String::from_str("false")
                        };
                        rendering.push(Piece::Text(text));
                    },
                    Value::Host(host) => {
                        rendering.push(Piece::Host(Spanned::new(span, host.clone())));
                    },
                    Value::Reference(_) => {},
                }
                assert(rendering@ =~= display(reached@, span));
                Ok(rendering)
            },
            Err(error) => Err(error),
        }
    }
}

/// Where the type of `host` stands among `type_paths`, the type paths that
/// the host's type registry knows, in its order: the first place that holds
/// the type path of `host`. Fails as a formatting failure, for the
/// expression at `span`, where the registry does not know the type.
pub fn registry_entry(type_paths: &Vec<String>, host: &HostValue, span: Span) -> (result: Result<
    usize,
    RunError,
>)
    ensures
        match result {
            Ok(at) => {
                &&& at < type_paths.len()
                &&& type_paths[at as int]@ == host.type_path@
                &&& forall|before: int| 0 <= before < at ==> type_paths[before]@ != host.type_path@
            },
            Err(error) => {
                &&& error == RunError::FormattingFailure(Some(span))
                &&& forall|at: int|
                    0 <= at < type_paths.len() ==> type_paths[at]@ != host.type_path@
            },
        },
{
    let mut at: usize = 0;
    while at < type_paths.len()
        invariant
            at <= type_paths.len(),
            forall|before: int| 0 <= before < at ==> type_paths[before]@ != host.type_path@,
        decreases type_paths.len() - at,
    {
        if type_paths[at] == host.type_path {
            return Ok(at);
        }
        at = at + 1;
    }
    Err(RunError::FormattingFailure(Some(span)))
}

/// What the host's type registry made of a host value, as the outcome of
/// formatting: its text, or a formatting failure, for the expression at
/// `span`, where the registry had no entry for the value's type.
pub fn host_text(found: Option<String>, span: Span) -> (result: Result<String, RunError>)
    ensures
        match found {
            Some(text) => result == Ok::<String, RunError>(text),
            None => result == Err::<String, RunError>(RunError::FormattingFailure(Some(span))),
        },
{
    match found {
        Some(text) => Ok(text),
        None => Err(RunError::FormattingFailure(Some(span))),
    }
}

} // verus!
