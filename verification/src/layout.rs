//! The layout/dispatch engine: composite-header offsets and cast resolution.
//!
//! A concrete type that implements interfaces `I1..In` gets a composite header
//! with one dispatch-table-compatible slot per interface, in declaration
//! order.  Every slot is one table pointer wide, so the byte offset of slot
//! `k` from the header's base is exactly `k * SLOT_SIZE` — a pure compile-time
//! quantity in the real protocol, modelled here as verified arithmetic.
//! Casting resolves an identity by scanning the slots in declaration order and
//! returning the offset of the first interface that transitively satisfies
//! the requested identity; the first listed interface wins every tie.

use vstd::prelude::*;

use crate::Guid;
use crate::desc::InterfaceDesc;

verus! {

/// Width in bytes of one header slot: a single dispatch-table pointer.
pub const SLOT_SIZE: usize = 8;

/// The index of the first entry that transitively satisfies `q`, scanning in
/// declaration order; `None` when no entry does.
pub open spec fn first_match(entries: Seq<InterfaceDesc>, q: Guid) -> Option<int>
    decreases entries.len(),
{
    if entries.len() == 0 {
        None
    } else if entries[0].inherits_spec(q) {
        Some(0int)
    } else {
        match first_match(entries.drop_first(), q) {
            None => None,
            Some(i) => Some(i + 1),
        }
    }
}

/// When entry `i` satisfies `q` and no earlier entry does, the scan finds `i`.
pub proof fn lemma_first_match_at(entries: Seq<InterfaceDesc>, q: Guid, i: int)
    requires
        0 <= i < entries.len(),
        entries[i].inherits_spec(q),
        forall|j: int| 0 <= j < i ==> !entries[j].inherits_spec(q),
    ensures
        first_match(entries, q) == Some(i),
    decreases i,
{
    if i > 0 {
        lemma_first_match_at(entries.drop_first(), q, i - 1);
    }
}

/// When no entry satisfies `q`, the scan reports "unsupported".
pub proof fn lemma_first_match_none(entries: Seq<InterfaceDesc>, q: Guid)
    requires
        forall|j: int| 0 <= j < entries.len() ==> !entries[j].inherits_spec(q),
    ensures
        first_match(entries, q) is None,
    decreases entries.len(),
{
    if entries.len() > 0 {
        lemma_first_match_none(entries.drop_first(), q);
    }
}

/// A successful scan returns the index of a satisfying entry, and of the
/// first such entry in declaration order.
pub proof fn lemma_first_match_props(entries: Seq<InterfaceDesc>, q: Guid)
    ensures
        match first_match(entries, q) {
            None => forall|j: int| 0 <= j < entries.len() ==> !entries[j].inherits_spec(q),
            Some(i) => {
                &&& 0 <= i < entries.len()
                &&& entries[i].inherits_spec(q)
                &&& forall|j: int| 0 <= j < i ==> !entries[j].inherits_spec(q)
            },
        },
    decreases entries.len(),
{
    if entries.len() > 0 && !entries[0].inherits_spec(q) {
        let rest = entries.drop_first();
        lemma_first_match_props(rest, q);
        assert(forall|j: int| 0 <= j < rest.len() ==> rest[j] == entries[j + 1]);
        if first_match(rest, q) is None {
            assert forall|j: int| 0 <= j < entries.len() implies !entries[j].inherits_spec(q) by {
                if j > 0 {
                    assert(rest[j - 1] == entries[j]);
                }
            }
        } else {
            let i = first_match(rest, q)->Some_0;
            assert(entries[i + 1].inherits_spec(q));
            assert forall|j: int| 0 <= j < i + 1 implies !entries[j].inherits_spec(q) by {
                if j > 0 {
                    assert(rest[j - 1] == entries[j]);
                }
            }
        }
    }
}

/// The ordered interface list of one concrete type, together with the slot
/// offsets of its composite header.
pub struct HeaderLayout {
    /// Descriptors of the implemented interfaces, in declaration order.
    pub entries: Vec<InterfaceDesc>,
}

impl HeaderLayout {
    /// All slot offsets fit in a machine word.
    pub open spec fn wf(self) -> bool {
        self.entries@.len() * (SLOT_SIZE as nat) <= usize::MAX as nat
    }

    /// The statically fixed byte offset of slot `k` from the header's base.
    pub open spec fn offset_spec(k: int) -> int {
        k * (SLOT_SIZE as int)
    }

    /// Builds the layout for the given ordered interface list.
    pub fn new(entries: Vec<InterfaceDesc>) -> (r: HeaderLayout)
        requires
            entries@.len() * (SLOT_SIZE as nat) <= usize::MAX as nat,
        ensures
            r.entries@ == entries@,
            r.wf(),
    {
        HeaderLayout { entries }
    }

    /// The byte offset of slot `k`, computed as the real header would place
    /// it: `k` table pointers from the base.
    pub fn offset_of(&self, k: usize) -> (r: usize)
        requires
            self.wf(),
            k < self.entries@.len(),
        ensures
            r == Self::offset_spec(k as int),
    {
        k * SLOT_SIZE
    }

    /// Resolves the identity `iid` to a byte offset inside the composite
    /// header: the offset of the first implemented interface, in declaration
    /// order, that transitively satisfies `iid`; `None` when the type
    /// implements no such interface.
    pub fn query_interface(&self, iid: &Guid) -> (r: Option<usize>)
        requires
            self.wf(),
        ensures
            match first_match(self.entries@, *iid) {
                None => r is None,
                Some(i) => r == Some((i * (SLOT_SIZE as int)) as usize),
            },
    {
        let mut k: usize = 0;
        while k < self.entries.len()
            invariant
                self.wf(),
                k <= self.entries@.len(),
                forall|j: int| 0 <= j < k ==> !self.entries@[j].inherits_spec(*iid),
            decreases self.entries@.len() - k,
        {
            if self.entries[k].inherits(iid) {
                proof {
                    lemma_first_match_at(self.entries@, *iid, k as int);
                }
                return Some(k * SLOT_SIZE);
            }
            k += 1;
        }
        proof {
            lemma_first_match_none(self.entries@, *iid);
        }
        None
    }
}

} // verus!
