//! A model of a virtual-table-based multi-interface object protocol.
//!
//! An object may implement several unrelated foreign interfaces at once.  The
//! library computes, for each implemented interface, a fixed slot offset inside
//! a composite header that sits at the front of the object's allocation, and
//! resolves interface casts by a linear, declaration-ordered scan of that
//! header.  One shared reference count governs the whole allocation; owning
//! handles each stand for one unit of that count, borrowing handles for none.
//!
//! Because the real protocol works on raw addresses, the library models an
//! allocation's placement as a plain base address and proves the offset
//! arithmetic, the cast resolution policy, and the reference-count discipline
//! over that model.

use vstd::prelude::*;

pub mod class;
pub mod desc;
pub mod layout;
pub mod parse;
pub mod ptr;
pub mod refcount;

use crate::desc::InterfaceDesc;

verus! {

/// A 16-byte unique identifier for a foreign interface, held as two 64-bit
/// halves (most significant first).
#[derive(Clone, Copy, PartialEq, Eq, Structural, Debug)]
pub struct Guid {
    pub hi: u64,
    pub lo: u64,
}

impl Guid {
    /// Builds an identifier from its two 64-bit halves.
    pub fn new(hi: u64, lo: u64) -> (r: Guid)
        ensures
            r.hi == hi,
            r.lo == lo,
    {
        Guid { hi, lo }
    }
}

/// Implemented by every foreign interface type.
///
/// An interface has a fixed identity and a static, compile-time subtyping
/// relation: `inherits` answers whether the interface transitively satisfies
/// a given identity, which is the predicate the dispatch engine's cast
/// search evaluates.  Implementations must prove the relation reflexive and
/// must hand the engine a descriptor that agrees with it exactly.
pub trait Interface: Sized {
    /// The interface's own identity.
    spec fn iid_spec() -> Guid;

    /// The static subtyping relation: whether this interface transitively
    /// satisfies the identity `q`.
    spec fn inherits_spec(q: Guid) -> bool;

    /// Every interface satisfies its own identity.
    proof fn lemma_reflexive()
        ensures
            Self::inherits_spec(Self::iid_spec()),
    ;

    /// Returns the interface's identity.
    fn iid() -> (r: Guid)
        ensures
            r == Self::iid_spec(),
    ;

    /// Returns whether this interface transitively satisfies `iid`.
    fn inherits(iid: &Guid) -> (r: bool)
        ensures
            r == Self::inherits_spec(*iid),
    ;

    /// Builds the runtime descriptor the dispatch engine scans; it must
    /// agree with the static relation on every identity.
    fn descriptor() -> (r: InterfaceDesc)
        ensures
            r.iid == Self::iid_spec(),
            forall|q: Guid| r.inherits_spec(q) == Self::inherits_spec(q),
    ;
}

/// The pointer-recovery strategy an owning allocation wrapper provides for
/// objects of data type `C`: reading the user data, converting between the
/// header's and the data region's addresses inside the one allocation, and
/// moving the shared reference count.  The dispatch slots of a composite
/// header rely on these operations to reach the object from an interface
/// pointer.
pub trait Wrapper<C>: Sized {
    /// The wrapper's structural well-formedness.
    spec fn w_wf(&self) -> bool;

    /// The allocation's base address, where the header starts.
    spec fn w_base(&self) -> int;

    /// The user data's address inside the allocation.
    spec fn w_data_addr(&self) -> int;

    /// The shared reference count.
    spec fn w_count(&self) -> int;

    /// The user's data.
    spec fn w_data(&self) -> C;

    /// Placement, header and data agree; only the count may differ.
    spec fn w_same(&self, other: &Self) -> bool;

    /// Reads the user's data.
    fn data(&self) -> (r: &C)
        ensures
            *r == self.w_data(),
    ;

    /// Computes the data region's address from the header's.
    fn data_from_header(&self, ptr: usize) -> (r: usize)
        requires
            self.w_wf(),
            ptr as int == self.w_base(),
        ensures
            r as int == self.w_data_addr(),
    ;

    /// Computes the header's address from the data region's.
    fn header_from_data(&self, ptr: usize) -> (r: usize)
        requires
            self.w_wf(),
            ptr as int == self.w_data_addr(),
        ensures
            r == self.w_base(),
    ;

    /// Acquires one owning reference; returns the resulting count.
    fn add_ref(&mut self) -> (r: usize)
        requires
            old(self).w_count() >= 1,
            old(self).w_count() < usize::MAX as int,
        ensures
            final(self).w_same(old(self)),
            final(self).w_count() == old(self).w_count() + 1,
            r as int == final(self).w_count(),
    ;

    /// Releases one owning reference; returns the resulting count.  The
    /// allocation is deallocated exactly when the result is zero.
    fn release(&mut self) -> (r: usize)
        requires
            old(self).w_count() >= 1,
        ensures
            final(self).w_same(old(self)),
            final(self).w_count() == old(self).w_count() - 1,
            r as int == final(self).w_count(),
            r == 0 <==> final(self).w_count() == 0,
    ;
}

/// The capability contract: the minimal operation set every foreign object
/// exposes — identity-cast, acquire and release — each reached through a raw
/// interface pointer that originated from the object's own allocation.
/// A pointer that did not is out of contract, which the `requires` clauses
/// state; the operations never fail otherwise.
pub trait Unknown: Sized {
    /// The object's structural well-formedness.
    spec fn obj_wf(&self) -> bool;

    /// The shared reference count.
    spec fn obj_count(&self) -> int;

    /// Whether `a` is one of the object's interface pointers.
    spec fn obj_has_addr(&self, a: int) -> bool;

    /// The pointer an identity-cast for `q` yields, when `q` is supported.
    spec fn obj_cast_addr(&self, q: Guid) -> Option<int>;

    /// Placement, header and data agree; only the count may differ.
    spec fn obj_same(&self, other: &Self) -> bool;

    /// Identity-cast: resolves `iid` against the object's interfaces and, on
    /// success, acquires one count unit and returns the matching interface
    /// pointer; unsupported identities leave the count alone.
    fn query_interface(&mut self, this: usize, iid: &Guid) -> (r: Option<usize>)
        requires
            old(self).obj_wf(),
            old(self).obj_count() >= 1,
            old(self).obj_count() < usize::MAX as int,
            old(self).obj_has_addr(this as int),
        ensures
            final(self).obj_same(old(self)),
            match old(self).obj_cast_addr(*iid) {
                None => r is None && final(self).obj_count() == old(self).obj_count(),
                Some(a) => r == Some(a as usize) && final(self).obj_count() == old(
                    self,
                ).obj_count() + 1,
            },
    ;

    /// Acquire: one more owning reference; returns the resulting count.
    fn add_ref(&mut self, this: usize) -> (r: usize)
        requires
            old(self).obj_wf(),
            old(self).obj_count() >= 1,
            old(self).obj_count() < usize::MAX as int,
            old(self).obj_has_addr(this as int),
        ensures
            final(self).obj_same(old(self)),
            final(self).obj_count() == old(self).obj_count() + 1,
            r as int == final(self).obj_count(),
    ;

    /// Release: gives an owning reference back; returns the resulting count.
    /// The object is deallocated exactly when the result is zero.
    fn release(&mut self, this: usize) -> (r: usize)
        requires
            old(self).obj_wf(),
            old(self).obj_count() >= 1,
            old(self).obj_has_addr(this as int),
        ensures
            final(self).obj_same(old(self)),
            final(self).obj_count() == old(self).obj_count() - 1,
            r as int == final(self).obj_count(),
            r == 0 <==> final(self).obj_count() == 0,
    ;
}

/// The "is-a" relation between interface types: `I: Inherits<J>` states that
/// a pointer to `I` is valid as a pointer to `J`, because `J`'s dispatch
/// table is a prefix of `I`'s.  The implementation obligation makes the
/// relation sound: the derived interface satisfies every identity the base
/// does.
pub trait Inherits<J: Interface>: Interface {
    /// Whatever identity the base satisfies, the derived interface
    /// satisfies too.
    proof fn lemma_upcast(q: Guid)
        requires
            J::inherits_spec(q),
        ensures
            Self::inherits_spec(q),
    ;
}

impl<I: Interface> Inherits<I> for I {
    proof fn lemma_upcast(q: Guid) {
    }
}

/// Subtyping is reflexive: every interface is-a itself.
pub proof fn lemma_is_a_reflexive<A: Interface>()
    ensures
        A::inherits_spec(A::iid_spec()),
{
    A::lemma_reflexive();
}

/// Subtyping is transitive: if `A` is-a `B` and `B` is-a `C`, then `A`
/// satisfies everything `C` satisfies — in particular `C`'s own identity.
pub proof fn lemma_is_a_transitive<A: Inherits<B>, B: Inherits<C>, C: Interface>()
    ensures
        A::inherits_spec(C::iid_spec()),
        forall|q: Guid| C::inherits_spec(q) ==> A::inherits_spec(q),
{
    C::lemma_reflexive();
    assert forall|q: Guid| C::inherits_spec(q) implies A::inherits_spec(q) by {
        B::lemma_upcast(q);
        A::lemma_upcast(q);
    }
}

/// Implemented by a concrete type to declare which interfaces it exposes.
///
/// The ordered descriptor list drives the layout engine: one header slot per
/// entry, in declaration order, with the first listed interface winning
/// every cast tie.
pub trait Class: Sized {
    /// The declared interface list.
    spec fn interfaces_spec() -> Seq<InterfaceDesc>;

    /// Returns the descriptors of the declared interfaces, in order.
    fn interfaces() -> (r: Vec<InterfaceDesc>)
        ensures
            r@ == Self::interfaces_spec(),
    ;
}

} // verus!
