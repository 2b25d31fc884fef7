//! The cells that bindings own and references alias.
//!
//! A cell is a slot of an arena. A reference names a slot together with the
//! generation the slot had when the cell was made; once the cell is gone, the
//! slot is only ever handed out again under a later generation, so a reference
//! to a cell that has been moved out never reaches another cell.
//!
//! A cell lives as long as it has an owner: the binding that made it, and
//! every binding that came to share it. Reading through a reference borrows
//! the store, and writing through one borrows it exclusively, so a cell is
//! never read while it is written.

use vstd::prelude::*;
use crate::chain::{follow, resolve, Cells, Chain};
use crate::error::RunError;
use crate::span::Span;
use crate::value::{Owner, Reference, Value, ValueView};

verus! {

struct Slot {
    generation: u64,
    /// How many strong handles the cell has; zero where there is no cell.
    owners: usize,
    value: Option<Value>,
}

/// An arena of value cells.
pub struct Store {
    slots: Vec<Slot>,
    /// The empty slots that can be handed out again.
    free: Vec<usize>,
    /// How many slots hold a value.
    live: usize,
}

impl View for Store {
    type V = Cells;

    /// The living cells: each reference that can be upgraded, with the value
    /// its cell holds.
    closed spec fn view(&self) -> Cells {
        Map::new(
            |reference: Reference| self.occupied(reference),
            |reference: Reference| self.slots[reference.index as int].value->0@,
        )
    }
}

impl Store {
    spec fn occupied(&self, reference: Reference) -> bool {
        &&& reference.index < self.slots.len()
        &&& self.slots[reference.index as int].generation == reference.generation
        &&& self.slots[reference.index as int].value is Some
    }

    spec fn issued(&self, reference: Reference) -> bool {
        &&& reference.index < self.slots.len()
        &&& reference.generation <= self.slots[reference.index as int].generation
    }

    /// How many owners each living cell has.
    pub closed spec fn owners(&self) -> Map<Reference, nat> {
        Map::new(
            |reference: Reference| self.occupied(reference),
            |reference: Reference| self.slots[reference.index as int].owners as nat,
        )
    }

    /// The references whose cell is gone: each named a cell of this store
    /// once, and none will ever name one again.
    pub closed spec fn spent(&self) -> Set<Reference> {
        Set::new(|reference: Reference| self.issued(reference) && !self.occupied(reference))
    }

    /// The store is consistent. This holds of a new store, and every operation
    /// keeps it.
    pub closed spec fn wf(&self) -> bool {
        &&& self@.dom().finite()
        &&& self@.dom().len() == self.live
        &&& self.live + self.free.len() <= self.slots.len()
        &&& self.free@.no_duplicates()
        &&& forall|index: int|
            0 <= index < self.slots.len() && (#[trigger] self.slots[index]).value is Some
                ==> self.slots[index].owners > 0
        &&& forall|k: int|
            0 <= k < self.free.len() ==> {
                &&& (#[trigger] self.free[k]) < self.slots.len()
                &&& self.slots[self.free[k] as int].value is None
                &&& self.slots[self.free[k] as int].generation < u64::MAX
            }
    }

    /// In a consistent store the living cells are finitely many, each has an
    /// owner, and no spent reference is among them.
    pub proof fn lemma_wf(&self)
        requires
            self.wf(),
        ensures
            self@.dom().finite(),
            self@.dom().disjoint(self.spent()),
            self.owners().dom() == self@.dom(),
            forall|reference: Reference| #[trigger]
                self@.dom().contains(reference) ==> self.owners()[reference] > 0,
    {
        assert(self.owners().dom() =~= self@.dom());
    }

    /// A spent reference does not upgrade: the attempt fails as a reference
    /// to moved data. No operation takes a reference out of the spent ones,
    /// so this holds from the moment the cell is gone.
    pub proof fn lemma_spent_reference_fails(&self, reference: Reference, span: Span)
        requires
            self.wf(),
            self.spent().contains(reference),
        ensures
            upgrade_of(self@, reference, span) == Err::<ValueView, RunError>(
                RunError::ReferenceToMovedData(Some(span)),
            ),
    {
    }

    /// A store without cells.
    pub fn new() -> (store: Store)
        ensures
            store.wf(),
            store@ == Cells::empty(),
            store.owners() == Map::<Reference, nat>::empty(),
            store.spent() == Set::<Reference>::empty(),
    {
        let store = Store { slots: Vec::new(), free: Vec::new(), live: 0 };
        assert(store@ =~= Cells::empty());
        assert(store.owners() =~= Map::<Reference, nat>::empty());
        assert(store.spent() =~= Set::<Reference>::empty());
        store
    }

    /// The number of living cells.
    pub fn len(&self) -> (len: usize)
        requires
            self.wf(),
        ensures
            len == self@.dom().len(),
    {
        self.live
    }

    /// Makes a cell that holds `value` and hands out its ownership. The cell
    /// is one that no reference has named before, and has this one owner.
    pub fn bind(&mut self, value: Value) -> (owner: Owner)
        requires
            old(self).wf(),
        ensures
            final(self).wf(),
            !old(self)@.dom().contains(owner.reference()),
            !old(self).spent().contains(owner.reference()),
            final(self)@ == old(self)@.insert(owner.reference(), value@),
            final(self).owners() == old(self).owners().insert(owner.reference(), 1),
            final(self).spent() == old(self).spent(),
    {
        let ghost before = *self;
        let cell = match self.free.pop() {
            Some(index) => {
                assert(index == before.free[before.free.len() - 1]);
                let generation: u64 = self.slots[index].generation + 1;
                self.slots.set(index, Slot { generation, owners: 1, value: Some(value) });
                Reference { index, generation }
            },
            None => {
                let index: usize = self.slots.len();
                self.slots.push(Slot { generation: 0, owners: 1, value: Some(value) });
                Reference { index, generation: 0 }
            },
        };
        assert(self.live < self.slots.len());
        self.live = self.live + 1;
        proof {
            assert(self@ =~= before@.insert(cell, value@));
            assert(self.owners() =~= before.owners().insert(cell, 1));
            assert(self.spent() =~= before.spent());
            assert(self.free@.no_duplicates());
        }
        Owner { cell }
    }

    /// Makes one more owner of the cell that `owner` owns. Gives nothing and
    /// changes nothing where the cell is gone, and where the cell has as many
    /// owners as can be counted.
    pub fn share(&mut self, owner: &Owner) -> (shared: Option<Owner>)
        requires
            old(self).wf(),
        ensures
            final(self).wf(),
            final(self)@ == old(self)@,
            final(self).spent() == old(self).spent(),
            match shared {
                Some(other) => {
                    &&& old(self)@.dom().contains(owner.reference())
                    &&& old(self).owners()[owner.reference()] < usize::MAX
                    &&& other.reference() == owner.reference()
                    &&& final(self).owners() == old(self).owners().insert(
                        owner.reference(),
                        old(self).owners()[owner.reference()] + 1,
                    )
                },
                None => {
                    &&& !old(self)@.dom().contains(owner.reference()) || old(
                        self,
                    ).owners()[owner.reference()] == usize::MAX
                    &&& final(self).owners() == old(self).owners()
                },
            },
    {
        let ghost before = *self;
        let cell = owner.cell;
        if cell.index < self.slots.len() {
            let slot = &self.slots[cell.index];
            if slot.generation == cell.generation && slot.value.is_some() && slot.owners
                < usize::MAX {
                let owners: usize = slot.owners + 1;
                self.slots[cell.index].owners = owners;
                proof {
                    assert(self@ =~= before@);
                    assert(self.owners() =~= before.owners().insert(
                        cell,
                        before.owners()[cell] + 1,
                    ));
                    assert(self.spent() =~= before.spent());
                    assert(self@.dom() =~= before@.dom());
                }
                return Some(Owner { cell });
            }
        }
        None
    }

    /// Upgrades `reference`: gives access to the value of its cell, or fails,
    /// for the expression at `span`, where the cell is gone.
    pub fn upgrade(&self, reference: &Reference, span: Span) -> (access: Result<&Value, RunError>)
        ensures
            match access {
                Ok(value) => upgrade_of(self@, *reference, span) == Ok::<ValueView, RunError>(
                    value@,
                ),
                Err(error) => upgrade_of(self@, *reference, span) == Err::<ValueView, RunError>(
                    error,
                ),
            },
    {
        if reference.index < self.slots.len() {
            let slot = &self.slots[reference.index];
            if slot.generation == reference.generation {
                if let Some(value) = &slot.value {
                    return Ok(value);
                }
            }
        }
        Err(RunError::ReferenceToMovedData(Some(span)))
    }

    /// Writes `value` into the cell of `reference` and returns what the cell
    /// held; fails, for the expression at `span`, and changes nothing where
    /// the cell is gone.
    pub fn write(&mut self, reference: &Reference, value: Value, span: Span) -> (previous: Result<
        Value,
        RunError,
    >)
        requires
            old(self).wf(),
        ensures
            final(self).wf(),
            final(self).owners() == old(self).owners(),
            final(self).spent() == old(self).spent(),
            match previous {
                Ok(held) => {
                    &&& old(self)@.dom().contains(*reference)
                    &&& held@ == old(self)@[*reference]
                    &&& final(self)@ == old(self)@.insert(*reference, value@)
                },
                Err(error) => {
                    &&& !old(self)@.dom().contains(*reference)
                    &&& error == RunError::ReferenceToMovedData(Some(span))
                    &&& final(self)@ == old(self)@
                },
            },
    {
        let ghost before = *self;
        if reference.index < self.slots.len() {
            let slot = &self.slots[reference.index];
            if slot.generation == reference.generation && slot.value.is_some() {
                let mut held = Some(value);
                core::mem::swap(&mut self.slots[reference.index].value, &mut held);
                proof {
                    assert(self@ =~= before@.insert(*reference, value@));
                    assert(self.owners() =~= before.owners());
                    assert(self.spent() =~= before.spent());
                    assert(self@.dom() =~= before@.dom());
                }
                return Ok(held.unwrap());
            }
        }
        Err(RunError::ReferenceToMovedData(Some(span)))
    }

    /// Gives up the ownership that `owner` stands for. Where this was the
    /// last owner of the cell, the value is moved out and handed back, the
    /// cell is gone, and every reference to it is spent. Where others still
    /// own the cell, it stays as it is with one owner less. Where the cell was
    /// gone already, nothing changes.
    pub fn release(&mut self, owner: Owner) -> (moved: Option<Value>)
        requires
            old(self).wf(),
        ensures
            final(self).wf(),
            match moved {
                Some(value) => {
                    &&& old(self)@.dom().contains(owner.reference())
                    &&& old(self).owners()[owner.reference()] == 1
                    &&& value@ == old(self)@[owner.reference()]
                    &&& final(self)@ == old(self)@.remove(owner.reference())
                    &&& final(self).owners() == old(self).owners().remove(owner.reference())
                    &&& final(self).spent() == old(self).spent().insert(owner.reference())
                },
                None => {
                    &&& final(self)@ == old(self)@
                    &&& final(self).spent() == old(self).spent()
                    &&& if old(self)@.dom().contains(owner.reference()) {
                        &&& old(self).owners()[owner.reference()] > 1
                        &&& final(self).owners() == old(self).owners().insert(
                            owner.reference(),
                            (old(self).owners()[owner.reference()] - 1) as nat,
                        )
                    } else {
                        final(self).owners() == old(self).owners()
                    }
                },
            },
    {
        let ghost before = *self;
        let cell = owner.cell;
        if cell.index >= self.slots.len() {
            return None;
        }
        let slot = &self.slots[cell.index];
        if slot.generation != cell.generation || slot.value.is_none() {
            return None;
        }
        let owners: usize = slot.owners;
        assert(before@.dom().contains(cell));
        if owners > 1 {
            self.slots[cell.index].owners = owners - 1;
            proof {
                assert(self@ =~= before@);
                assert(self.owners() =~= before.owners().insert(
                    cell,
                    (before.owners()[cell] - 1) as nat,
                ));
                assert(self.spent() =~= before.spent());
                assert(self@.dom() =~= before@.dom());
            }
            return None;
        }
        let moved = self.slots[cell.index].value.take();
        self.slots[cell.index].owners = 0;
        if cell.generation < u64::MAX {
            self.free.push(cell.index);
        }
        proof {
            assert(before@.dom().len() > 0) by {
                if before@.dom().len() == 0 {
                    before@.dom().lemma_len0_is_empty();
                }
            }
        }
        self.live = self.live - 1;
        proof {
            assert(self@ =~= before@.remove(cell));
            assert(self.owners() =~= before.owners().remove(cell));
            assert(self.spent() =~= before.spent().insert(cell));
            assert forall|k: int| 0 <= k < before.free.len() implies before.free[k]
                != cell.index by {
                assert(before.slots[before.free[k] as int].value is None);
            }
            assert(self.free@.no_duplicates());
            assert forall|k: int| 0 <= k < self.free.len() implies {
                &&& (#[trigger] self.free[k]) < self.slots.len()
                &&& self.slots[self.free[k] as int].value is None
                &&& self.slots[self.free[k] as int].generation < u64::MAX
            } by {
                if k < before.free.len() {
                    assert(self.free[k] == before.free[k]);
                }
            }
        }
        moved
    }

    /// Follows the references of `value` to their end: gives the value that
    /// is no reference, and the number of references that led to it. Fails,
    /// for the expression at `span`, where a reference on the way has lost
    /// its cell, and where the references run in a circle.
    pub fn resolve<'a>(&'a self, value: &'a Value, span: Span) -> (end: Result<
        (&'a Value, usize),
        RunError,
    >)
        requires
            self.wf(),
        ensures
            match end {
                Ok((reached, hops)) => resolve(self@, value@) == (Chain::Ends {
                    hops: hops as nat,
                    value: reached@,
                }),
                Err(error) => error == failure(resolve(self@, value@), span) && !(resolve(
                    self@,
                    value@,
                ) is Ends),
            },
    {
        let fuel: usize = self.live;
        let mut current: &Value = value;
        let mut hops: usize = 0;
        loop
            invariant
                hops <= fuel,
                fuel == self@.dom().len(),
                resolve(self@, value@) == follow(self@, current@, (fuel - hops) as nat).after(
                    hops as nat,
                ),
            decreases fuel - hops,
        {
            match current {
                Value::Reference(reference) => {
                    match self.upgrade(reference, span) {
                        Ok(target) => {
                            if hops == fuel {
                                return Err(RunError::CyclicReference(Some(span)));
                            }
                            current = target;
                            hops = hops + 1;
                        },
                        Err(error) => {
                            return Err(error);
                        },
                    }
                },
                _ => {
                    return Ok((current, hops));
                },
            }
        }
    }
}

/// What upgrading `reference` gives among `cells`, for the expression at
/// `span`.
pub open spec fn upgrade_of(cells: Cells, reference: Reference, span: Span) -> Result<
    ValueView,
    RunError,
> {
    if cells.dom().contains(reference) {
        Ok(cells[reference])
    } else {
        Err(RunError::ReferenceToMovedData(Some(span)))
    }
}

/// The error that a chain without a value at its end stands for, for the
/// expression at `span`.
pub open spec fn failure(chain: Chain, span: Span) -> RunError {
    match chain {
        Chain::Unfinished => RunError::CyclicReference(Some(span)),
        _ => RunError::ReferenceToMovedData(Some(span)),
    }
}

/// Once the last owner of a cell has released it, a reference to the cell no
/// longer upgrades: the attempt fails as a reference to moved data.
pub proof fn lemma_moved_cell_rejects_references(
    before: Cells,
    owner: Owner,
    reference: Reference,
    span: Span,
)
    requires
        reference == owner.reference(),
    ensures
        upgrade_of(before.remove(owner.reference()), reference, span) == Err::<ValueView, _>(
            RunError::ReferenceToMovedData(Some(span)),
        ),
{
}

} // verus!
