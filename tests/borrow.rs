use panama::borrow::RefState;

#[test]
fn shared_borrows_count_up_and_down() {
    let s = RefState::Unshared.share().unwrap();
    assert_eq!(s, RefState::Shared(1));
    let s = s.share().unwrap();
    assert_eq!(s, RefState::Shared(2));
    assert_eq!(s.share_mut(), None);
    let s = s.unshare();
    assert_eq!(s, RefState::Shared(1));
    assert_eq!(s.unshare(), RefState::Unshared);
    assert_eq!(RefState::Shared(usize::MAX).share(), None);
}

#[test]
fn exclusive_borrow_excludes_all() {
    let s = RefState::Unshared.share_mut().unwrap();
    assert_eq!(s, RefState::Exclusive);
    assert_eq!(s.share(), None);
    assert_eq!(s.share_mut(), None);
    assert_eq!(s.unshare_mut(), RefState::Unshared);
}
