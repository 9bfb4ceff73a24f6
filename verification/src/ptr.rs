//! Boundary smart pointers: owning and borrowing interface handles.
//!
//! Interface pointers cross the foreign boundary as raw addresses.  Exactly
//! two wrapper kinds are sanctioned for producing or consuming such an
//! address: [`ComPtr`], which stands for one held unit of the allocation's
//! shared reference count and must eventually be released, and [`ComRef`],
//! which carries no count responsibility and must not outlive the call that
//! produced it.  Choosing between the two at each boundary crossing encodes
//! the entire ownership discipline; the conversions here never touch the
//! count themselves.

use vstd::prelude::*;

use crate::class::ComWrapper;

verus! {

/// An owning interface handle: a raw address paired with responsibility for
/// one unit of the allocation's shared reference count.
pub struct ComPtr {
    /// The interface pointer's raw address.
    pub addr: usize,
}

impl ComPtr {
    /// Takes ownership of a raw address whose count unit the producer has
    /// already acquired on the caller's behalf (a returned or out-parameter
    /// pointer).  Touches no count.
    pub fn from_raw(addr: usize) -> (r: ComPtr)
        ensures
            r.addr == addr,
    {
        ComPtr { addr }
    }

    /// Hands out the raw address while the handle keeps its count unit.  The
    /// result must not be used to build a second owning handle.
    pub fn as_ptr(&self) -> (r: usize)
        ensures
            r == self.addr,
    {
        self.addr
    }

    /// Gives up the handle without releasing its count unit: whoever receives
    /// the returned address now owes the matching release.
    pub fn into_raw(self) -> (r: usize)
        ensures
            r == self.addr,
    {
        self.addr
    }
}

/// A borrowing interface handle: a raw address valid only for the current
/// call scope, owning no unit of the reference count.
pub struct ComRef {
    /// The interface pointer's raw address.
    pub addr: usize,
}

impl ComRef {
    /// Wraps a raw address received as an incoming parameter, relying on the
    /// caller to keep the object alive for the call's duration.
    pub fn from_raw(addr: usize) -> (r: ComRef)
        ensures
            r.addr == addr,
    {
        ComRef { addr }
    }

    /// Hands out the raw address; no count change.
    pub fn as_ptr(&self) -> (r: usize)
        ensures
            r == self.addr,
    {
        self.addr
    }

    /// Upgrades the borrow to an owning handle on the allocation it points
    /// into, acquiring one count unit so the handle may outlive the call.
    pub fn to_com_ptr<C>(&self, w: &mut ComWrapper<C>) -> (r: ComPtr)
        requires
            old(w).wf(),
            old(w).is_live(),
            old(w).count_spec() < usize::MAX as int,
            old(w).is_interface_addr(self.addr as int),
        ensures
            final(w).same_allocation(*old(w)),
            final(w).count_spec() == old(w).count_spec() + 1,
            r.addr == self.addr,
    {
        w.add_ref();
        ComPtr { addr: self.addr }
    }
}

} // verus!
