//! Chains of references, as mathematics: where following the references of a
//! value leads, given which cells are alive and what they hold.

use vstd::prelude::*;
use crate::value::{Reference, ValueView};

verus! {

/// The living cells of a store: each reference that can be upgraded, with
/// the value its cell holds.
pub type Cells = Map<Reference, ValueView>;

/// Where following the references of a value leads.
pub enum Chain {
    /// After `hops` references comes `value`, which is no reference.
    Ends { hops: nat, value: ValueView },
    /// After `hops` references comes one whose cell is gone.
    Dangling { hops: nat },
    /// The allowance of hops ran out while the chain still went on.
    Unfinished,
}

impl Chain {
    /// The same end, reached through `extra` more references.
    pub open spec fn after(self, extra: nat) -> Chain {
        match self {
            Chain::Ends { hops, value } => Chain::Ends { hops: hops + extra, value },
            Chain::Dangling { hops } => Chain::Dangling { hops: hops + extra },
            Chain::Unfinished => Chain::Unfinished,
        }
    }

    /// The number of references followed, for a chain that came to an end.
    pub open spec fn hops(self) -> nat {
        match self {
            Chain::Ends { hops, .. } => hops,
            Chain::Dangling { hops } => hops,
            Chain::Unfinished => 0,
        }
    }
}

/// Follows the references of `value` through `cells`, at most `fuel` of them.
pub open spec fn follow(cells: Cells, value: ValueView, fuel: nat) -> Chain
    decreases fuel,
{
    match value {
        ValueView::Reference(reference) => {
            if !cells.dom().contains(reference) {
                Chain::Dangling { hops: 0 }
            } else if fuel == 0 {
                Chain::Unfinished
            } else {
                follow(cells, cells[reference], (fuel - 1) as nat).after(1)
            }
        },
        _ => Chain::Ends { hops: 0, value },
    }
}

/// Where the references of `value` lead. A chain that comes to an end passes
/// through each cell at most once, so one hop for each living cell is all it
/// can take; `Unfinished` here means that the chain runs in a circle.
pub open spec fn resolve(cells: Cells, value: ValueView) -> Chain {
    follow(cells, value, cells.dom().len())
}

/// `value` is the outermost of `depth` nested references, each to a living
/// cell, the innermost of which holds a value that is no reference.
pub open spec fn nested(cells: Cells, value: ValueView, depth: nat) -> bool
    decreases depth,
{
    match value {
        ValueView::Reference(reference) => {
            &&& depth > 0
            &&& cells.dom().contains(reference)
            &&& nested(cells, cells[reference], (depth - 1) as nat)
        },
        _ => depth == 0,
    }
}

/// A chain that has come to an end took no more hops than it was allowed,
/// and needs no more than it took.
pub proof fn lemma_fuel_spent(cells: Cells, value: ValueView, fuel: nat)
    requires
        follow(cells, value, fuel) != Chain::Unfinished,
    ensures
        follow(cells, value, fuel).hops() <= fuel,
        follow(cells, value, follow(cells, value, fuel).hops()) == follow(cells, value, fuel),
    decreases fuel,
{
    if let ValueView::Reference(reference) = value {
        if cells.dom().contains(reference) {
            lemma_fuel_spent(cells, cells[reference], (fuel - 1) as nat);
        }
    }
}

/// Once a chain has come to an end, a larger allowance changes nothing.
pub proof fn lemma_more_fuel(cells: Cells, value: ValueView, fuel: nat, more: nat)
    requires
        follow(cells, value, fuel) != Chain::Unfinished,
        fuel <= more,
    ensures
        follow(cells, value, more) == follow(cells, value, fuel),
    decreases fuel,
{
    if let ValueView::Reference(reference) = value {
        if cells.dom().contains(reference) {
            lemma_more_fuel(cells, cells[reference], (fuel - 1) as nat, (more - 1) as nat);
        }
    }
}

/// A chain that ends sooner than the chain from `reference` does never passes
/// through the cell of `reference`, and so is the same without that cell.
proof fn lemma_detour(cells: Cells, reference: Reference, through: nat, value: ValueView, fuel: nat)
    requires
        cells.dom().contains(reference),
        follow(cells, ValueView::Reference(reference), through) != Chain::Unfinished,
        follow(cells, value, fuel) != Chain::Unfinished,
        follow(cells, value, fuel).hops() < follow(
            cells,
            ValueView::Reference(reference),
            through,
        ).hops(),
    ensures
        follow(cells.remove(reference), value, fuel) == follow(cells, value, fuel),
    decreases fuel,
{
    if let ValueView::Reference(next) = value {
        if cells.dom().contains(next) {
            if next == reference {
                let longest = if through <= fuel { fuel } else { through };
                lemma_more_fuel(cells, value, fuel, longest);
                lemma_more_fuel(cells, value, through, longest);
            } else {
                lemma_detour(cells, reference, through, cells[next], (fuel - 1) as nat);
            }
        }
    }
}

/// A chain that comes to an end takes at most one hop for each living cell.
pub proof fn lemma_hops_bounded(cells: Cells, value: ValueView, fuel: nat)
    requires
        cells.dom().finite(),
        follow(cells, value, fuel) != Chain::Unfinished,
    ensures
        follow(cells, value, fuel).hops() <= cells.dom().len(),
    decreases fuel,
{
    if let ValueView::Reference(reference) = value {
        if cells.dom().contains(reference) {
            let rest = (fuel - 1) as nat;
            lemma_detour(cells, reference, fuel, cells[reference], rest);
            lemma_hops_bounded(cells.remove(reference), cells[reference], rest);
        }
    }
}

/// However a chain was found to end, `resolve` finds the same end.
pub proof fn lemma_resolve_finds_end(cells: Cells, value: ValueView, fuel: nat)
    requires
        cells.dom().finite(),
        follow(cells, value, fuel) != Chain::Unfinished,
    ensures
        resolve(cells, value) == follow(cells, value, fuel),
{
    let hops = follow(cells, value, fuel).hops();
    lemma_fuel_spent(cells, value, fuel);
    lemma_hops_bounded(cells, value, fuel);
    lemma_more_fuel(cells, value, hops, cells.dom().len());
}

/// A chain that `resolve` leaves unfinished has no end, whatever allowance
/// it is given: it runs in a circle.
pub proof fn lemma_unfinished_is_endless(cells: Cells, value: ValueView, fuel: nat)
    requires
        cells.dom().finite(),
        resolve(cells, value) == Chain::Unfinished,
    ensures
        follow(cells, value, fuel) == Chain::Unfinished,
{
    if follow(cells, value, fuel) != Chain::Unfinished {
        lemma_resolve_finds_end(cells, value, fuel);
    }
}

/// Through `depth` nested references the chain ends after `depth` hops.
pub proof fn lemma_nested_follow(cells: Cells, value: ValueView, depth: nat)
    requires
        nested(cells, value, depth),
    ensures
        follow(cells, value, depth) is Ends,
        follow(cells, value, depth).hops() == depth,
    decreases depth,
{
    if let ValueView::Reference(reference) = value {
        lemma_nested_follow(cells, cells[reference], (depth - 1) as nat);
    }
}

} // verus!
