//! The owning allocation wrapper: one block, one shared count, many views.
//!
//! A `ComWrapper` models the single heap block backing one logical foreign
//! object: the composite header (one slot per implemented interface) placed
//! at the block's base address, the user's data right after the slots, and
//! the shared reference count.  Interface pointers are handed out by adding a
//! precomputed slot offset to the base address; acquire and release recover
//! the block from such a pointer by the reverse arithmetic and move the one
//! shared count, whichever interface the pointer targets.  The model keeps
//! the block's placement as a plain base address, so every address handed out
//! and recovered is pinned down exactly.

use vstd::prelude::*;

use crate::Guid;
use crate::desc::InterfaceDesc;
use crate::layout::{HeaderLayout, SLOT_SIZE, first_match, lemma_first_match_props};
use crate::ptr::{ComPtr, ComRef};

verus! {

/// The single allocation backing one foreign object: composite header,
/// user data, and the shared reference count, at a fixed base address.
pub struct ComWrapper<C> {
    /// The composite header's interface list and slot offsets.
    pub layout: HeaderLayout,
    /// The user's data, living after the header slots.
    pub data: C,
    /// The allocation's base address, where the header starts.
    pub base: usize,
    /// The shared reference count: the number of live owning references.
    pub count: usize,
}

impl<C> ComWrapper<C> {
    /// The allocation is placed sanely: a non-null base, and every slot and
    /// the data region addressable without wrapping.
    pub open spec fn wf(self) -> bool {
        &&& self.layout.wf()
        &&& 1 <= self.base
        &&& self.base + self.layout.entries@.len() * (SLOT_SIZE as int) <= usize::MAX as int
    }

    /// The implemented interfaces, in declaration order.
    pub open spec fn interfaces_spec(self) -> Seq<InterfaceDesc> {
        self.layout.entries@
    }

    /// The shared reference count.
    pub open spec fn count_spec(self) -> int {
        self.count as int
    }

    /// Whether the allocation is still live: at least one owning reference
    /// holds it.  Once the count reaches zero the block is deallocated and
    /// no further operation is in contract.
    pub open spec fn is_live(self) -> bool {
        self.count >= 1
    }

    /// Two states of the same allocation: placement, header, and data agree;
    /// only the count may differ.
    pub open spec fn same_allocation(self, other: Self) -> bool {
        &&& self.layout == other.layout
        &&& self.base == other.base
        &&& self.data == other.data
    }

    /// The address of header slot `k`: base plus the statically fixed offset.
    pub open spec fn interface_addr_spec(self, k: int) -> int {
        self.base + HeaderLayout::offset_spec(k)
    }

    /// The address of the user data: right after the header's slots.
    pub open spec fn data_addr_spec(self) -> int {
        self.base + self.interfaces_spec().len() * (SLOT_SIZE as int)
    }

    /// Whether `a` is one of this allocation's interface pointers.
    pub open spec fn is_interface_addr(self, a: int) -> bool {
        exists|k: int|
            0 <= k < self.interfaces_spec().len() && a == self.interface_addr_spec(k)
    }

    /// The address a cast for identity `q` hands out: the slot of the first
    /// implemented interface satisfying `q`, or nothing when unsupported.
    pub open spec fn cast_addr_spec(self, q: Guid) -> Option<int> {
        match first_match(self.interfaces_spec(), q) {
            None => None,
            Some(i) => Some(self.interface_addr_spec(i)),
        }
    }

    /// Creates the one allocation for a logical object: header built from the
    /// ordered interface list, data moved in, and the shared count started at
    /// one — the unit the wrapper itself holds.
    pub fn new(data: C, interfaces: Vec<InterfaceDesc>, base: usize) -> (r: ComWrapper<C>)
        requires
            1 <= base,
            base + interfaces@.len() * (SLOT_SIZE as int) <= usize::MAX as int,
        ensures
            r.wf(),
            r.interfaces_spec() == interfaces@,
            r.data == data,
            r.base == base,
            r.count_spec() == 1,
    {
        let layout = HeaderLayout::new(interfaces);
        ComWrapper { layout, data, base, count: 1 }
    }

    /// Creates the allocation for a concrete type that declares its
    /// interface list through [`crate::Class`].
    pub fn for_class(data: C, base: usize) -> (r: ComWrapper<C>) where C: crate::Class
        requires
            1 <= base,
            base + C::interfaces_spec().len() * (SLOT_SIZE as int) <= usize::MAX as int,
        ensures
            r.wf(),
            r.interfaces_spec() == C::interfaces_spec(),
            r.data == data,
            r.base == base,
            r.count_spec() == 1,
    {
        let interfaces = C::interfaces();
        ComWrapper::new(data, interfaces, base)
    }

    /// Acquires one more owning reference to the allocation and returns the
    /// resulting count.
    pub fn add_ref(&mut self) -> (r: usize)
        requires
            old(self).is_live(),
            old(self).count_spec() < usize::MAX as int,
        ensures
            final(self).same_allocation(*old(self)),
            final(self).count_spec() == old(self).count_spec() + 1,
            r as int == final(self).count_spec(),
    {
        self.count = self.count + 1;
        self.count
    }

    /// Releases one owning reference and returns the resulting count.  The
    /// allocation is deallocated exactly when the result is zero; after
    /// that, no operation on it is in contract.
    pub fn release(&mut self) -> (r: usize)
        requires
            old(self).is_live(),
        ensures
            final(self).same_allocation(*old(self)),
            final(self).count_spec() == old(self).count_spec() - 1,
            r as int == final(self).count_spec(),
            r == 0 <==> !final(self).is_live(),
    {
        self.count = self.count - 1;
        self.count
    }

    /// Borrowing cast: hands out the interface pointer for `iid` bound to
    /// this wrapper's scope, without touching the count; `None` when no
    /// implemented interface satisfies `iid`.
    pub fn as_com_ref(&self, iid: &Guid) -> (r: Option<ComRef>)
        requires
            self.wf(),
            self.is_live(),
        ensures
            match self.cast_addr_spec(*iid) {
                None => r is None,
                Some(a) => r is Some && r->Some_0.addr == a,
            },
            r is Some ==> self.is_interface_addr(r->Some_0.addr as int),
    {
        proof {
            lemma_first_match_props(self.interfaces_spec(), *iid);
        }
        match self.layout.query_interface(iid) {
            Some(offset) => {
                let addr = self.base + offset;
                proof {
                    let i = first_match(self.interfaces_spec(), *iid)->Some_0;
                    assert(addr as int == self.interface_addr_spec(i));
                }
                Some(ComRef { addr })
            },
            None => None,
        }
    }

    /// Owning cast: acquires one count unit and hands out the interface
    /// pointer for `iid`, now the caller's to release; `None`, with the
    /// count untouched, when no implemented interface satisfies `iid`.
    pub fn to_com_ptr(&mut self, iid: &Guid) -> (r: Option<ComPtr>)
        requires
            old(self).wf(),
            old(self).is_live(),
            old(self).count_spec() < usize::MAX as int,
        ensures
            final(self).same_allocation(*old(self)),
            final(self).wf(),
            match old(self).cast_addr_spec(*iid) {
                None => r is None && final(self).count_spec() == old(self).count_spec(),
                Some(a) => {
                    &&& r is Some
                    &&& r->Some_0.addr == a
                    &&& final(self).count_spec() == old(self).count_spec() + 1
                },
            },
            r is Some ==> final(self).is_interface_addr(r->Some_0.addr as int),
    {
        proof {
            lemma_first_match_props(self.interfaces_spec(), *iid);
        }
        match self.layout.query_interface(iid) {
            Some(offset) => {
                self.count = self.count + 1;
                let addr = self.base + offset;
                proof {
                    let i = first_match(self.interfaces_spec(), *iid)->Some_0;
                    assert(addr as int == self.interface_addr_spec(i));
                }
                Some(ComPtr { addr })
            },
            None => None,
        }
    }

    /// The foreign-facing identity-cast, called through a raw interface
    /// pointer that originated from this allocation: resolves `iid`, and on
    /// success acquires one count unit and returns the matching interface
    /// pointer; `None`, with the count untouched, when unsupported.
    pub fn query_interface(&mut self, this: usize, iid: &Guid) -> (r: Option<usize>)
        requires
            old(self).wf(),
            old(self).is_live(),
            old(self).count_spec() < usize::MAX as int,
            old(self).is_interface_addr(this as int),
        ensures
            final(self).same_allocation(*old(self)),
            match old(self).cast_addr_spec(*iid) {
                None => r is None && final(self).count_spec() == old(self).count_spec(),
                Some(a) => {
                    &&& r == Some(a as usize)
                    &&& final(self).count_spec() == old(self).count_spec() + 1
                },
            },
    {
        match self.to_com_ptr(iid) {
            Some(p) => Some(p.into_raw()),
            None => None,
        }
    }

    /// The foreign-facing acquire, called through a raw interface pointer:
    /// recovers the allocation by the reverse offset arithmetic and acquires
    /// one count unit, returning the resulting count.
    pub fn add_ref_at(&mut self, this: usize) -> (r: usize)
        requires
            old(self).wf(),
            old(self).is_live(),
            old(self).count_spec() < usize::MAX as int,
            old(self).is_interface_addr(this as int),
        ensures
            final(self).same_allocation(*old(self)),
            final(self).count_spec() == old(self).count_spec() + 1,
            r as int == final(self).count_spec(),
    {
        let _base = self.allocation_from_interface(this);
        self.add_ref()
    }

    /// The foreign-facing release, called through a raw interface pointer:
    /// recovers the allocation by the reverse offset arithmetic and releases
    /// one count unit, returning the resulting count.  The allocation is
    /// deallocated exactly when the result is zero.
    pub fn release_at(&mut self, this: usize) -> (r: usize)
        requires
            old(self).wf(),
            old(self).is_live(),
            old(self).is_interface_addr(this as int),
        ensures
            final(self).same_allocation(*old(self)),
            final(self).count_spec() == old(self).count_spec() - 1,
            r as int == final(self).count_spec(),
            r == 0 <==> !final(self).is_live(),
    {
        let _base = self.allocation_from_interface(this);
        self.release()
    }

    /// Reverse recovery: computes the allocation's base address from an
    /// interface pointer that originated from this allocation, by undoing
    /// the slot-offset arithmetic.
    pub fn allocation_from_interface(&self, this: usize) -> (r: usize)
        requires
            self.wf(),
            self.is_interface_addr(this as int),
        ensures
            r == self.base,
    {
        proof {
            let k = choose|k: int|
                0 <= k < self.interfaces_spec().len() && this as int
                    == self.interface_addr_spec(k);
            assert(this as int == self.base + k * (SLOT_SIZE as int));
            assert((this - self.base) as int % (SLOT_SIZE as int) == 0) by {
                assert(this as int - self.base == k * (SLOT_SIZE as int));
            }
        }
        let offset = this - self.base;
        let slot = offset / SLOT_SIZE;
        proof {
            let k = choose|k: int|
                0 <= k < self.interfaces_spec().len() && this as int
                    == self.interface_addr_spec(k);
            assert(offset as int == k * (SLOT_SIZE as int));
            assert(slot as int == k);
        }
        this - slot * SLOT_SIZE
    }

    /// Recovers the user data's address from the header's (that is, the
    /// allocation's base) address: the data sits right after the slots.
    pub fn data_from_header(&self, ptr: usize) -> (r: usize)
        requires
            self.wf(),
            ptr == self.base,
        ensures
            r as int == self.data_addr_spec(),
    {
        ptr + self.layout.entries.len() * SLOT_SIZE
    }

    /// Recovers the header's (the allocation's base) address from the user
    /// data's address.
    pub fn header_from_data(&self, ptr: usize) -> (r: usize)
        requires
            self.wf(),
            ptr as int == self.data_addr_spec(),
        ensures
            r == self.base,
    {
        ptr - self.layout.entries.len() * SLOT_SIZE
    }
}

impl<C> crate::Wrapper<C> for ComWrapper<C> {
    open spec fn w_wf(&self) -> bool {
        self.wf()
    }

    open spec fn w_base(&self) -> int {
        self.base as int
    }

    open spec fn w_data_addr(&self) -> int {
        self.data_addr_spec()
    }

    open spec fn w_count(&self) -> int {
        self.count_spec()
    }

    open spec fn w_data(&self) -> C {
        self.data
    }

    open spec fn w_same(&self, other: &Self) -> bool {
        self.same_allocation(*other)
    }

    fn data(&self) -> (r: &C) {
        &self.data
    }

    fn data_from_header(&self, ptr: usize) -> (r: usize) {
        ComWrapper::<C>::data_from_header(self, ptr)
    }

    fn header_from_data(&self, ptr: usize) -> (r: usize) {
        ComWrapper::<C>::header_from_data(self, ptr)
    }

    fn add_ref(&mut self) -> (r: usize) {
        ComWrapper::<C>::add_ref(self)
    }

    fn release(&mut self) -> (r: usize) {
        ComWrapper::<C>::release(self)
    }
}

impl<C> crate::Unknown for ComWrapper<C> {
    open spec fn obj_wf(&self) -> bool {
        self.wf()
    }

    open spec fn obj_count(&self) -> int {
        self.count_spec()
    }

    open spec fn obj_has_addr(&self, a: int) -> bool {
        self.is_interface_addr(a)
    }

    open spec fn obj_cast_addr(&self, q: Guid) -> Option<int> {
        self.cast_addr_spec(q)
    }

    open spec fn obj_same(&self, other: &Self) -> bool {
        self.same_allocation(*other)
    }

    fn query_interface(&mut self, this: usize, iid: &Guid) -> (r: Option<usize>) {
        ComWrapper::<C>::query_interface(self, this, iid)
    }

    fn add_ref(&mut self, this: usize) -> (r: usize) {
        self.add_ref_at(this)
    }

    fn release(&mut self, this: usize) -> (r: usize) {
        self.release_at(this)
    }
}

/// Offset determinism: the distance of slot `k`'s address from the base is
/// the statically computed offset, the same for every instance and every
/// data type.
pub proof fn lemma_offset_determinism<C1, C2>(w1: ComWrapper<C1>, w2: ComWrapper<C2>, k: int)
    ensures
        w1.interface_addr_spec(k) - w1.base == HeaderLayout::offset_spec(k),
        w1.interface_addr_spec(k) - w1.base == w2.interface_addr_spec(k) - w2.base,
{
}

/// Cast correctness, positive half: casts that resolve to different slots
/// yield distinct addresses, and every address handed out is non-null.
pub proof fn lemma_cast_distinct<C>(w: ComWrapper<C>, qa: Guid, qb: Guid)
    requires
        w.wf(),
        w.cast_addr_spec(qa) is Some,
        w.cast_addr_spec(qb) is Some,
        first_match(w.interfaces_spec(), qa) != first_match(w.interfaces_spec(), qb),
    ensures
        w.cast_addr_spec(qa)->Some_0 != w.cast_addr_spec(qb)->Some_0,
        w.cast_addr_spec(qa)->Some_0 >= 1,
        w.cast_addr_spec(qb)->Some_0 >= 1,
{
    lemma_first_match_props(w.interfaces_spec(), qa);
    lemma_first_match_props(w.interfaces_spec(), qb);
}

/// Cast correctness, negative half: a cast is "unsupported" exactly when no
/// implemented interface transitively satisfies the requested identity.
pub proof fn lemma_cast_unsupported<C>(w: ComWrapper<C>, q: Guid)
    ensures
        w.cast_addr_spec(q) is None <==> forall|k: int|
            0 <= k < w.interfaces_spec().len() ==> !w.interfaces_spec()[k].inherits_spec(q),
{
    lemma_first_match_props(w.interfaces_spec(), q);
}

} // verus!
