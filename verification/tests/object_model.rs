use com_scrape_types::{Guid, Unknown, Wrapper};
use com_scrape_types::class::ComWrapper;
use com_scrape_types::desc::InterfaceDesc;
use com_scrape_types::layout::{HeaderLayout, SLOT_SIZE};
use com_scrape_types::ptr::{ComPtr, ComRef};

fn guid(n: u64) -> Guid {
    Guid::new(n, n.wrapping_mul(0x0123_4567_89ab_cdef))
}

#[test]
fn guid_halves() {
    let g = Guid::new(7, 9);
    assert_eq!(g.hi, 7);
    assert_eq!(g.lo, 9);
    assert_eq!(g, Guid { hi: 7, lo: 9 });
    assert_ne!(g, Guid { hi: 7, lo: 8 });
}

#[test]
fn inherits_is_reflexive() {
    let a = InterfaceDesc::root(guid(1));
    assert!(a.inherits(&guid(1)));
    assert!(!a.inherits(&guid(2)));
}

#[test]
fn inherits_is_transitive() {
    let c = InterfaceDesc::root(guid(3));
    let b = InterfaceDesc::root(guid(2)).with_base(&c);
    let a = InterfaceDesc::root(guid(1)).with_base(&b);
    assert!(a.inherits(&guid(1)));
    assert!(a.inherits(&guid(2)));
    assert!(a.inherits(&guid(3)));
    assert!(b.inherits(&guid(3)));
    assert!(!b.inherits(&guid(1)));
    assert!(!a.inherits(&guid(4)));
}

#[test]
fn layout_offsets_are_slot_multiples() {
    let entries = vec![
        InterfaceDesc::root(guid(1)),
        InterfaceDesc::root(guid(2)),
        InterfaceDesc::root(guid(3)),
    ];
    let layout = HeaderLayout::new(entries);
    assert_eq!(layout.offset_of(0), 0);
    assert_eq!(layout.offset_of(1), SLOT_SIZE);
    assert_eq!(layout.offset_of(2), 2 * SLOT_SIZE);
}

#[test]
fn offsets_are_the_same_for_every_instance() {
    let mk = || {
        vec![
            InterfaceDesc::root(guid(1)),
            InterfaceDesc::root(guid(2)),
        ]
    };
    let w1 = ComWrapper::new(11u32, mk(), 0x1000);
    let w2 = ComWrapper::new(String::from("other data"), mk(), 0x9000);
    let a1 = w1.as_com_ref(&guid(2)).unwrap().as_ptr();
    let a2 = w2.as_com_ref(&guid(2)).unwrap().as_ptr();
    assert_eq!(a1 - w1.base, SLOT_SIZE);
    assert_eq!(a2 - w2.base, SLOT_SIZE);
    assert_eq!(a1 - w1.base, a2 - w2.base);
}

#[test]
fn query_interface_first_listed_wins() {
    // Two implemented interfaces both satisfy the shared base identity; the
    // first in declaration order must win the tie.
    let base = InterfaceDesc::root(guid(10));
    let a = InterfaceDesc::root(guid(1)).with_base(&base);
    let b = InterfaceDesc::root(guid(2)).with_base(&base);
    let layout = HeaderLayout::new(vec![a, b]);
    assert_eq!(layout.query_interface(&guid(10)), Some(0));
    assert_eq!(layout.query_interface(&guid(2)), Some(SLOT_SIZE));
    assert_eq!(layout.query_interface(&guid(77)), None);
}

#[test]
fn cast_addresses_distinct_and_nonnull() {
    let a = InterfaceDesc::root(guid(1));
    let b = InterfaceDesc::root(guid(2));
    let w = ComWrapper::new((), vec![a, b], 0x4000);
    let pa = w.as_com_ref(&guid(1)).unwrap().as_ptr();
    let pb = w.as_com_ref(&guid(2)).unwrap().as_ptr();
    assert_ne!(pa, pb);
    assert_ne!(pa, 0);
    assert_ne!(pb, 0);
    assert!(w.as_com_ref(&guid(3)).is_none());
}

#[test]
fn refcount_round_trip_deallocates_once() {
    let a = InterfaceDesc::root(guid(1));
    let mut w = ComWrapper::new(5u8, vec![a], 0x2000);
    assert_eq!(w.count, 1);
    let p = w.to_com_ptr(&guid(1)).unwrap();
    assert_eq!(w.count, 2);
    // Drop the original wrapper's own unit: no deallocation yet.
    let after_wrapper = w.release();
    assert_eq!(after_wrapper, 1);
    // Release the owned pointer's unit: the count reaches zero exactly here.
    let after_ptr = w.release_at(p.into_raw());
    assert_eq!(after_ptr, 0);
}

#[test]
fn borrowing_never_changes_the_count() {
    let a = InterfaceDesc::root(guid(1));
    let mut w = ComWrapper::new(0u64, vec![a], 0x2000);
    for _ in 0..16 {
        let r = w.as_com_ref(&guid(1)).unwrap();
        let _ = r.as_ptr();
    }
    assert_eq!(w.count, 1);
    // Failed owning casts leave the count alone too.
    assert!(w.to_com_ptr(&guid(9)).is_none());
    assert_eq!(w.count, 1);
}

#[test]
fn owned_cast_increments_and_release_decrements() {
    let a = InterfaceDesc::root(guid(1));
    let mut w = ComWrapper::new((), vec![a], 0x2000);
    let p = w.to_com_ptr(&guid(1)).unwrap();
    assert_eq!(w.count, 2);
    assert_eq!(p.as_ptr(), 0x2000);
    assert_eq!(w.release_at(p.into_raw()), 1);
    assert_eq!(w.count, 1);
}

#[test]
fn acquire_and_release_through_interface_pointer() {
    let a = InterfaceDesc::root(guid(1));
    let b = InterfaceDesc::root(guid(2));
    let mut w = ComWrapper::new((), vec![a, b], 0x3000);
    let addr = w.as_com_ref(&guid(2)).unwrap().as_ptr();
    assert_eq!(addr, 0x3000 + SLOT_SIZE);
    assert_eq!(w.add_ref_at(addr), 2);
    assert_eq!(w.release_at(addr), 1);
    assert_eq!(w.add_ref(), 2);
    assert_eq!(w.release(), 1);
}

#[test]
fn query_interface_through_pointer_acquires() {
    let base = InterfaceDesc::root(guid(10));
    let a = InterfaceDesc::root(guid(1)).with_base(&base);
    let b = InterfaceDesc::root(guid(2));
    let mut w = ComWrapper::new((), vec![a, b], 0x5000);
    let this = w.as_com_ref(&guid(2)).unwrap().as_ptr();
    let cast = w.query_interface(this, &guid(10)).unwrap();
    assert_eq!(cast, 0x5000);
    assert_eq!(w.count, 2);
    assert!(w.query_interface(this, &guid(42)).is_none());
    assert_eq!(w.count, 2);
}

#[test]
fn reverse_recovery_finds_the_allocation() {
    let a = InterfaceDesc::root(guid(1));
    let b = InterfaceDesc::root(guid(2));
    let c = InterfaceDesc::root(guid(3));
    let w = ComWrapper::new(1u16, vec![a, b, c], 0x7000);
    for iid in [guid(1), guid(2), guid(3)] {
        let addr = w.as_com_ref(&iid).unwrap().as_ptr();
        assert_eq!(w.allocation_from_interface(addr), 0x7000);
    }
    let data = w.data_from_header(0x7000);
    assert_eq!(data, 0x7000 + 3 * SLOT_SIZE);
    assert_eq!(w.header_from_data(data), 0x7000);
}

#[test]
fn com_ptr_raw_conversions_keep_the_address() {
    let p = ComPtr::from_raw(0xabc0);
    assert_eq!(p.as_ptr(), 0xabc0);
    assert_eq!(p.into_raw(), 0xabc0);
    let r = ComRef::from_raw(0xdef0);
    assert_eq!(r.as_ptr(), 0xdef0);
}

#[test]
fn upgrading_a_borrow_acquires_a_unit() {
    let a = InterfaceDesc::root(guid(1));
    let mut w = ComWrapper::new((), vec![a], 0x2000);
    let borrowed = w.as_com_ref(&guid(1)).unwrap();
    assert_eq!(w.count, 1);
    let owned = borrowed.to_com_ptr(&mut w);
    assert_eq!(w.count, 2);
    assert_eq!(owned.as_ptr(), borrowed.as_ptr());
    assert_eq!(w.release_at(owned.into_raw()), 1);
}

#[test]
fn wrapper_strategy_through_the_trait() {
    let a = InterfaceDesc::root(guid(1));
    let b = InterfaceDesc::root(guid(2));
    let mut w = ComWrapper::new(42u32, vec![a, b], 0x2000);
    assert_eq!(*Wrapper::data(&w), 42);
    let data_addr = Wrapper::data_from_header(&w, 0x2000);
    assert_eq!(data_addr, 0x2000 + 2 * SLOT_SIZE);
    assert_eq!(Wrapper::header_from_data(&w, data_addr), 0x2000);
    assert_eq!(Wrapper::add_ref(&mut w), 2);
    assert_eq!(Wrapper::release(&mut w), 1);
}

#[test]
fn capability_contract_through_the_trait() {
    let a = InterfaceDesc::root(guid(1));
    let mut w = ComWrapper::new((), vec![a], 0x2000);
    let this = w.as_com_ref(&guid(1)).unwrap().as_ptr();
    assert_eq!(Unknown::add_ref(&mut w, this), 2);
    let cast = Unknown::query_interface(&mut w, this, &guid(1)).unwrap();
    assert_eq!(cast, 0x2000);
    assert_eq!(w.count, 3);
    assert!(Unknown::query_interface(&mut w, this, &guid(8)).is_none());
    assert_eq!(w.count, 3);
    assert_eq!(Unknown::release(&mut w, cast), 2);
    assert_eq!(Unknown::release(&mut w, this), 1);
}

#[test]
fn borrowing_and_owning_casts_agree_on_the_address() {
    let a = InterfaceDesc::root(guid(1));
    let b = InterfaceDesc::root(guid(2));
    let mut w = ComWrapper::new((), vec![a, b], 0x9000);
    let borrowed = w.as_com_ref(&guid(2)).unwrap().as_ptr();
    let owned = w.to_com_ptr(&guid(2)).unwrap();
    assert_eq!(borrowed, owned.as_ptr());
    assert_eq!(w.release_at(owned.into_raw()), 1);
}

#[test]
fn scenario_object_with_derived_and_unrelated_interface() {
    // Object O implements A (is-a Base) and B (unrelated to Base).
    let base = InterfaceDesc::root(guid(100));
    let a = InterfaceDesc::root(guid(1)).with_base(&base);
    let b = InterfaceDesc::root(guid(2));
    let layout = HeaderLayout::new(vec![
        InterfaceDesc { iid: a.iid, bases: a.bases.clone() },
        InterfaceDesc { iid: b.iid, bases: b.bases.clone() },
    ]);
    // Requesting Base resolves to A's offset: A satisfies Base, B does not.
    assert_eq!(layout.query_interface(&guid(100)), Some(0));
    // Requesting B resolves to B's offset.
    assert_eq!(layout.query_interface(&guid(2)), Some(SLOT_SIZE));
    // An unrelated identity is unsupported.
    assert_eq!(layout.query_interface(&guid(50)), None);

    let mut o = ComWrapper::new(String::from("object state"), vec![a, b], 0x8000);
    assert_eq!(o.count, 1);
    // Cast to owned A: the count goes from one to two.
    let pa = o.to_com_ptr(&guid(1)).unwrap();
    assert_eq!(o.count, 2);
    assert_eq!(pa.as_ptr(), 0x8000);
    // Drop the original wrapper: two to one, no deallocation.
    assert_eq!(o.release(), 1);
    // Release the owned A pointer: one to zero, deallocation happens here,
    // exactly once.
    assert_eq!(o.release_at(pa.into_raw()), 0);
}
