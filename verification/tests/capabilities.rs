use vanadinite::capabilities::{
    Capability, CapabilityPtr, CapabilityRights, EXECUTE_BIT, GRANT_BIT, READ_BIT, WRITE_BIT,
};

#[test]
fn pointer_keeps_its_index() {
    assert_eq!(CapabilityPtr::new(7).value(), 7);
    assert_eq!(CapabilityPtr::new(usize::MAX).value(), usize::MAX);
    assert_eq!(CapabilityPtr::new(3), CapabilityPtr::new(3));
}

#[test]
fn rights_keep_defined_bits_only() {
    assert_eq!(CapabilityRights::new(0xFF).value(), 0xF);
    assert_eq!(CapabilityRights::new(0x13).value(), 0x3);
    assert_eq!(CapabilityRights::new(usize::MAX).value(), 0xF);
    assert_eq!(CapabilityRights::new(0x10).value(), 0);
}

#[test]
fn named_rights_have_their_bits() {
    assert_eq!(CapabilityRights::none().value(), 0);
    assert_eq!(CapabilityRights::read().value(), 1);
    assert_eq!(CapabilityRights::write().value(), 2);
    assert_eq!(CapabilityRights::execute().value(), 4);
    assert_eq!(CapabilityRights::grant().value(), 8);
    assert_eq!((READ_BIT, WRITE_BIT, EXECUTE_BIT, GRANT_BIT), (1, 2, 4, 8));
}

#[test]
fn every_rights_value_is_a_superset_of_itself() {
    for bits in 0..16 {
        let r = CapabilityRights::new(bits);
        assert!(r.is_superset(r));
    }
}

#[test]
fn every_rights_value_is_a_superset_of_none() {
    for bits in 0..16 {
        assert!(CapabilityRights::new(bits).is_superset(CapabilityRights::none()));
    }
}

#[test]
fn none_is_a_superset_of_nothing_but_itself() {
    for bits in 1..16 {
        assert!(!CapabilityRights::none().is_superset(CapabilityRights::new(bits)));
    }
    assert!(CapabilityRights::none().is_superset(CapabilityRights::none()));
}

#[test]
fn superset_is_inclusion_of_bits() {
    for a in 0..16usize {
        for b in 0..16usize {
            let expected = b & !a == 0;
            assert_eq!(CapabilityRights::new(a).is_superset(CapabilityRights::new(b)), expected);
        }
    }
}

#[test]
fn or_merges_rights() {
    let rw = CapabilityRights::read() | CapabilityRights::write();
    assert_eq!(rw.value(), 3);
    let mut all = rw;
    all |= CapabilityRights::execute();
    all |= CapabilityRights::grant();
    assert_eq!(all.value(), 0xF);
}

#[test]
fn and_asks_whether_all_bits_are_held() {
    let rw = CapabilityRights::new(3);
    assert!(rw & CapabilityRights::read());
    assert!(rw & CapabilityRights::new(3));
    assert!(!(rw & CapabilityRights::execute()));
    assert!(!(rw & CapabilityRights::new(7)));
    assert!(rw & CapabilityRights::none());
    for a in 0..16usize {
        for b in 0..16usize {
            let x = CapabilityRights::new(a);
            let y = CapabilityRights::new(b);
            assert_eq!(x & y, x.is_superset(y));
        }
    }
}

#[test]
fn capability_holds_what_it_was_made_of() {
    let cap = Capability::new(CapabilityPtr::new(9), CapabilityRights::new(5));
    assert_eq!(cap.cptr.value(), 9);
    assert_eq!(cap.rights.value(), 5);
    let copy = cap;
    assert_eq!(copy.rights.value(), cap.rights.value());
}

#[test]
fn default_capability_is_null_without_rights() {
    let cap = Capability::default();
    assert_eq!(cap.cptr.value(), 0);
    assert_eq!(cap.rights.value(), 0);
}
