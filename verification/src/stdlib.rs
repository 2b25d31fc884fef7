//! The callables that every console has.

use vstd::prelude::*;
use crate::chain::{lemma_nested_follow, lemma_resolve_finds_end, nested, resolve, Cells, Chain};
use crate::environment::{Callable, CallableView, Environment, Names};
use crate::error::RunError;
use crate::format::{
    debug_of,
    debug_text,
    format_of,
    rendered,
    truth_text,
    Piece,
    PieceView,
    Rendering,
};
use crate::span::{Span, Spanned};
use crate::store::{failure, Store};
use crate::value::{Value, ValueView};

verus! {

/// What `print` writes for `value` among `cells`: a text as it is, and
/// anything else as formatting gives it.
pub open spec fn print_of(cells: Cells, value: ValueView, span: Span) -> Result<
    Seq<PieceView>,
    RunError,
> {
    match value {
        ValueView::String(text) => Ok(seq![PieceView::Text(text)]),
        _ => format_of(cells, value, span),
    }
}

/// What is written to the log for `value`: a text verbatim, anything else
/// formatted. Fails as formatting does.
pub fn print(store: &Store, value: Spanned<Value>) -> (written: Result<Rendering, RunError>)
    requires
        store.wf(),
    ensures
        rendered(written) == print_of(store@, value.value@, value.span),
{
    match value.value {
        Value::String(text) => Ok(Rendering::text(text)),
        other => other.try_format(value.span, store),
    }
}

/// `print` writes a text as its characters and nothing more, and every other
/// value exactly as formatting gives it.
pub proof fn lemma_print_agrees_with_format(cells: Cells, value: ValueView, span: Span)
    ensures
        value matches ValueView::String(text) ==> print_of(cells, value, span) == Ok::<
            Seq<PieceView>,
            RunError,
        >(seq![PieceView::Text(text)]),
        !(value is String) ==> print_of(cells, value, span) == format_of(cells, value, span),
{
}

/// The dump of a text whose debug form is `shown`.
pub open spec fn string_dump_of(shown: Seq<char>) -> Seq<PieceView> {
    seq![PieceView::Text("Value::String("@ + shown + ")"@)]
}

/// The dump of a host value, the debug forms of whose two texts are
/// `type_path` and `path`.
pub open spec fn host_dump_of(type_path: Seq<char>, path: Seq<char>) -> Seq<PieceView> {
    seq![
        PieceView::Text(
            "Value::Host(HostValue { type_path: "@ + type_path + ", path: "@ + path + " })"@,
        ),
    ]
}

/// The dump of a value: `Value::`, its variant, and between brackets what
/// the variant holds, in debug form.
pub open spec fn dump_of(value: ValueView) -> Seq<PieceView> {
    match value {
        ValueView::Number(bits) => seq![
            PieceView::Text("Value::Number("@),
            PieceView::DebugNumber(bits),
            PieceView::Text(")"@),
        ],
        ValueView::String(text) => string_dump_of(debug_text(text)),
        ValueView::Boolean(truth) => seq![
            PieceView::Text("Value::Boolean("@ + truth_text(truth) + ")"@),
        ],
        ValueView::Reference(_) => seq![PieceView::Text("Value::Reference((Weak))"@)],
        ValueView::Host(host) => host_dump_of(
            debug_text(host.type_path),
            debug_text(host.path),
        ),
    }
}

/// The dump of a text, given the debug form of the text.
pub fn dump_string(shown: String) -> (written: Rendering)
    ensures
        written@ == string_dump_of(shown@),
{
    let mut line = String::from_str("Value::String(");
    line.append(shown.as_str());
    line.append(")");
    Rendering::text(line)
}

/// The dump of a host value, given the debug forms of its two texts.
pub fn dump_host(type_path: String, path: String) -> (written: Rendering)
    ensures
        written@ == host_dump_of(type_path@, path@),
{
    let mut line = String::from_str("Value::Host(HostValue { type_path: ");
    line.append(type_path.as_str());
    line.append(", path: ");
    line.append(path.as_str());
    line.append(" })");
    Rendering::text(line)
}

/// What is written to the log to show `any` as the console holds it: its
/// variant, and what the variant holds, in debug form. A reference is not
/// followed, and nothing is asked of the host's registry, so this cannot
/// fail.
pub fn dbg(any: Value) -> (written: Rendering)
    ensures
        written@ == dump_of(any@),
{
    match any {
        Value::Number(bits) => {
            let mut written = Rendering::new();
            written.push(Piece::Text(String::from_str("Value::Number(")));
            written.push(Piece::DebugNumber(bits));
            written.push(Piece::Text(String::from_str(")")));
            assert(written@ =~= dump_of(any@));
            written
        },
        Value::String(text) => dump_string(debug_of(&text)),
        Value::Boolean(truth) => {
            let mut line = String::from_str("Value::Boolean(");
            if truth {
                line.append("true");
            } else {
                line.append("false");
            }
            line.append(")");
            Rendering::text(line)
        },
        Value::Reference(_) => Rendering::text(String::from_str("Value::Reference((Weak))")),
        Value::Host(host) => dump_host(debug_of(&host.type_path), debug_of(&host.path)),
    }
}

/// The number of references that lead from `value` to a value that is no
/// reference, among `cells`; or the failure to get there, for the expression
/// at `span`.
pub open spec fn depth_of(cells: Cells, value: ValueView, span: Span) -> Result<nat, RunError> {
    match resolve(cells, value) {
        Chain::Ends { hops, .. } => Ok(hops),
        chain => Err(failure(chain, span)),
    }
}

/// A count as a machine integer gives it.
pub open spec fn counted(result: Result<u64, RunError>) -> Result<nat, RunError> {
    match result {
        Ok(count) => Ok(count as nat),
        Err(error) => Err(error),
    }
}

/// How many references must be followed from `value` to reach a value that
/// is no reference. Fails, with the span of `value`, as soon as a reference
/// on the way has lost its cell, and where the references run in a circle.
pub fn ref_depth(store: &Store, value: Spanned<Value>) -> (depth: Result<u64, RunError>)
    requires
        store.wf(),
    ensures
        counted(depth) == depth_of(store@, value.value@, value.span),
{
    match store.resolve(&value.value, value.span) {
        Ok((_, hops)) => Ok(hops as u64),
        Err(error) => Err(error),
    }
}

/// Disposes of a value.
pub fn drop(_v: Value) {
}

/// `names` with the callables that every console has, each under its name.
pub open spec fn with_stdlib(names: Names) -> Names {
    names.insert("print"@, CallableView::Print).insert("dbg"@, CallableView::Dbg).insert(
        "ref_depth"@,
        CallableView::RefDepth,
    ).insert("drop"@, CallableView::Drop)
}

/// Enters the callables that every console has: `print`, `dbg`, `ref_depth`
/// and `drop`.
pub fn register(environment: &mut Environment)
    requires
        old(environment).wf(),
    ensures
        final(environment).wf(),
        final(environment)@ == with_stdlib(old(environment)@),
{
    environment.register_fn("print", Callable::Print);
    environment.register_fn("dbg", Callable::Dbg);
    environment.register_fn("ref_depth", Callable::RefDepth);
    environment.register_fn("drop", Callable::Drop);
}

/// A value that is no reference has depth zero, in every store.
pub proof fn lemma_plain_value_has_depth_zero(cells: Cells, value: ValueView, span: Span)
    requires
        !(value is Reference),
    ensures
        depth_of(cells, value, span) == Ok::<nat, RunError>(0),
{
}

/// The outermost of `depth` nested references, the innermost of which leads
/// to a value that is no reference, has depth `depth`.
pub proof fn lemma_nested_references_have_their_depth(
    cells: Cells,
    value: ValueView,
    depth: nat,
    span: Span,
)
    requires
        cells.dom().finite(),
        nested(cells, value, depth),
    ensures
        depth_of(cells, value, span) == Ok::<nat, RunError>(depth),
{
    lemma_nested_follow(cells, value, depth);
    lemma_resolve_finds_end(cells, value, depth);
}

} // verus!
