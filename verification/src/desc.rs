//! Interface descriptors and the subtyping ("is-a") relation.
//!
//! Each foreign interface is described by its identity and by the identities
//! of every interface it transitively derives from.  The `extends` relation
//! between two descriptors captures a consistent "is-a" edge: the derived
//! descriptor lists the base's identity and everything the base lists.  Built
//! through [`InterfaceDesc::root`] and [`InterfaceDesc::with_base`], the
//! relation is reflexive and transitive, matching the prefix-compatibility
//! contract the dispatch engine relies on.

use vstd::prelude::*;

use crate::Guid;

verus! {

/// Describes one foreign interface: its identity and the identities of all
/// interfaces it transitively derives from (not including itself).
pub struct InterfaceDesc {
    /// The interface's own identity.
    pub iid: Guid,
    /// Identities of every transitive base interface.
    pub bases: Vec<Guid>,
}

impl InterfaceDesc {
    /// Whether this interface transitively satisfies the identity `q`:
    /// either `q` is its own identity or `q` names one of its bases.
    pub open spec fn inherits_spec(self, q: Guid) -> bool {
        q == self.iid || self.bases@.contains(q)
    }

    /// A consistent "is-a" edge: this descriptor lists `p`'s identity as a
    /// base, together with everything `p` itself lists.
    pub open spec fn extends_spec(self, p: InterfaceDesc) -> bool {
        &&& self.bases@.contains(p.iid)
        &&& forall|q: Guid| p.bases@.contains(q) ==> self.bases@.contains(q)
    }

    /// A descriptor for an interface that derives from nothing.
    pub fn root(iid: Guid) -> (r: InterfaceDesc)
        ensures
            r.iid == iid,
            r.bases@.len() == 0,
    {
        InterfaceDesc { iid, bases: Vec::new() }
    }

    /// Extends this descriptor with one more base interface, absorbing the
    /// base's own ancestry so that the relation stays transitively closed.
    pub fn with_base(self, parent: &InterfaceDesc) -> (r: InterfaceDesc)
        ensures
            r.iid == self.iid,
            r.extends_spec(*parent),
            forall|d: InterfaceDesc| self.extends_spec(d) ==> r.extends_spec(d),
            forall|q: Guid|
                r.inherits_spec(q) <==> self.inherits_spec(q) || parent.inherits_spec(q),
    {
        let InterfaceDesc { iid, mut bases } = self;
        let ghost orig: Seq<Guid> = bases@;
        bases.push(parent.iid);
        let mut i: usize = 0;
        while i < parent.bases.len()
            invariant
                i <= parent.bases@.len(),
                bases@ == orig.push(parent.iid) + parent.bases@.subrange(0, i as int),
            decreases parent.bases@.len() - i,
        {
            bases.push(parent.bases[i]);
            proof {
                assert(bases@ == orig.push(parent.iid) + parent.bases@.subrange(0, i + 1));
            }
            i += 1;
        }
        proof {
            assert(parent.bases@.subrange(0, parent.bases@.len() as int) =~= parent.bases@);
            assert(bases@ == orig.push(parent.iid) + parent.bases@);
            lemma_concat_contains(orig.push(parent.iid), parent.bases@);
            assert forall|q: Guid| orig.push(parent.iid).contains(q)
                <==> orig.contains(q) || q == parent.iid by {
                lemma_push_contains(orig, parent.iid, q);
            }
            assert(bases@.contains(parent.iid)) by {
                assert(bases@[orig.len() as int] == parent.iid);
            }
        }
        InterfaceDesc { iid, bases }
    }

    /// Answers whether this interface transitively satisfies the identity `q`.
    ///
    /// This is the predicate the dispatch engine's cast search evaluates for
    /// each implemented interface in turn.
    pub fn inherits(&self, q: &Guid) -> (r: bool)
        ensures
            r == self.inherits_spec(*q),
    {
        if self.iid == *q {
            return true;
        }
        let mut i: usize = 0;
        while i < self.bases.len()
            invariant
                i <= self.bases@.len(),
                forall|j: int| 0 <= j < i ==> self.bases@[j] != *q,
            decreases self.bases@.len() - i,
        {
            if self.bases[i] == *q {
                return true;
            }
            i += 1;
        }
        proof {
            assert(!self.bases@.contains(*q));
        }
        false
    }
}

/// An element is in a concatenation exactly when it is in one of the parts.
proof fn lemma_concat_contains(a: Seq<Guid>, b: Seq<Guid>)
    ensures
        forall|q: Guid| (a + b).contains(q) <==> a.contains(q) || b.contains(q),
{
    assert forall|q: Guid| (a + b).contains(q) implies a.contains(q) || b.contains(q) by {
        let k = choose|k: int| 0 <= k < (a + b).len() && (a + b)[k] == q;
        if k < a.len() {
            assert(a[k] == q);
        } else {
            assert(b[k - a.len()] == q);
        }
    }
    assert forall|q: Guid| a.contains(q) || b.contains(q) implies (a + b).contains(q) by {
        if a.contains(q) {
            let k = choose|k: int| 0 <= k < a.len() && a[k] == q;
            assert((a + b)[k] == q);
        } else {
            let k = choose|k: int| 0 <= k < b.len() && b[k] == q;
            assert((a + b)[k + a.len()] == q);
        }
    }
}

/// An element is in `s.push(x)` exactly when it is in `s` or equals `x`.
proof fn lemma_push_contains(s: Seq<Guid>, x: Guid, q: Guid)
    ensures
        s.push(x).contains(q) <==> s.contains(q) || q == x,
{
    if s.push(x).contains(q) {
        let k = choose|k: int| 0 <= k < s.push(x).len() && s.push(x)[k] == q;
        if k < s.len() {
            assert(s[k] == q);
        }
    }
    if s.contains(q) {
        let k = choose|k: int| 0 <= k < s.len() && s[k] == q;
        assert(s.push(x)[k] == q);
    }
    if q == x {
        assert(s.push(x)[s.len() as int] == q);
    }
}

/// The subtyping relation is reflexive: every interface satisfies its own
/// identity.
pub proof fn lemma_inherits_reflexive(d: InterfaceDesc)
    ensures
        d.inherits_spec(d.iid),
{
}

/// The subtyping relation is transitive over consistent "is-a" edges: if `a`
/// extends `b` and `b` extends `c`, then `a` extends `c`.
pub proof fn lemma_extends_transitive(a: InterfaceDesc, b: InterfaceDesc, c: InterfaceDesc)
    requires
        a.extends_spec(b),
        b.extends_spec(c),
    ensures
        a.extends_spec(c),
{
    assert(b.bases@.contains(c.iid));
    assert(a.bases@.contains(c.iid));
}

/// Anything a base interface satisfies, a derived interface satisfies too; in
/// particular, `a` extending `b` means `a` is-a `b`.
pub proof fn lemma_extends_inherits(a: InterfaceDesc, b: InterfaceDesc, q: Guid)
    requires
        a.extends_spec(b),
        b.inherits_spec(q),
    ensures
        a.inherits_spec(q),
{
    if q == b.iid {
        assert(a.bases@.contains(q));
    }
}

} // verus!
