use scooter::backend::register::RegMgr;
use scooter::backend::Container;

#[test]
fn new_manager_has_no_free_register() {
    let mut mgr: RegMgr<4> = RegMgr::new();
    for i in 0..4 {
        assert!(!mgr.is_free(i));
    }
    assert_eq!(mgr.get_free(), None);
}

#[test]
fn freed_registers_are_handed_out_last_first() {
    let mut mgr: RegMgr<4> = RegMgr::new();
    mgr.set_free(1);
    mgr.set_free(3);
    assert!(mgr.is_free(1));
    assert!(mgr.is_free(3));
    assert!(!mgr.is_free(0));
    assert_eq!(mgr.get_free(), Some(3));
    assert_eq!(mgr.get_free(), Some(1));
    assert_eq!(mgr.get_free(), None);
}

#[test]
fn set_free_twice_lists_the_register_once() {
    let mut mgr: RegMgr<2> = RegMgr::new();
    mgr.set_free(0);
    mgr.set_free(0);
    assert_eq!(mgr.get_free(), Some(0));
    assert_eq!(mgr.get_free(), None);
}

#[test]
fn set_used_takes_the_register_off_the_list() {
    let mut mgr: RegMgr<3> = RegMgr::new();
    mgr.set_free(0);
    mgr.set_free(1);
    mgr.set_free(2);
    mgr.set_used(1);
    assert!(!mgr.is_free(1));
    assert_eq!(mgr.get_free(), Some(2));
    assert_eq!(mgr.get_free(), Some(0));
    assert_eq!(mgr.get_free(), None);
}

#[test]
fn get_free_leaves_the_register_marked_free() {
    let mut mgr: RegMgr<1> = RegMgr::new();
    mgr.set_free(0);
    assert_eq!(mgr.get_free(), Some(0));
    assert!(mgr.is_free(0));
    mgr.set_used(0);
    assert!(!mgr.is_free(0));
}

#[test]
fn containers_compare_by_kind_and_value() {
    assert_eq!(Container::Register(1), Container::Register(1));
    assert_ne!(Container::Register(1), Container::Register(2));
    assert_ne!(Container::Register(1), Container::Offset(1));
    assert_eq!(Container::Offset(-8), Container::Offset(-8));
}
