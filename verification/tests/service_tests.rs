use dg::error::ErrorKind;
use dg::inotify_service::{
    prepare_watch_mask, watch_handle_step, InotifyService, WatchDescriptor, WatchHandleEvent,
    WatchHandleState, MASK_CREATE, MASK_DONT_FOLLOW, MASK_EXCL_UNLINK, MASK_MASK_ADD, MASK_MODIFY,
    MASK_ONESHOT, MASK_ONLYDIR,
};

#[test]
fn accepted_mask_gets_mask_add() {
    let m = prepare_watch_mask(MASK_CREATE | MASK_MODIFY).unwrap();
    assert_eq!(m, MASK_CREATE | MASK_MODIFY | MASK_MASK_ADD);
}

#[test]
fn rejected_mask_bits() {
    for bad in [
        MASK_DONT_FOLLOW,
        MASK_EXCL_UNLINK,
        MASK_MASK_ADD,
        MASK_ONESHOT,
        MASK_ONLYDIR,
    ] {
        let e = prepare_watch_mask(MASK_MODIFY | bad).unwrap_err();
        assert_eq!(e.kind(), ErrorKind::InvalidInput);
    }
}

#[test]
fn descriptors_are_minted_monotonically() {
    let mut wd = WatchDescriptor(0);
    assert_eq!(wd.next(), WatchDescriptor(0));
    assert_eq!(wd.next(), WatchDescriptor(1));
    assert_eq!(wd.0, 2);
}

#[test]
fn last_subscriber_releases_the_kernel_watch() {
    let mut svc = InotifyService::new();
    let a = svc.register_watch(7, MASK_MODIFY, 100);
    let b = svc.register_watch(7, MASK_CREATE, 101);
    assert_ne!(a.0, b.0);
    // another subscription still uses raw descriptor 7
    assert_eq!(svc.remove_watch(a.0), None);
    // the last one releases it
    assert_eq!(svc.remove_watch(b.0), Some(7));
    // removing an unknown subscription is a silent no-op
    assert_eq!(svc.remove_watch(99), None);
}

#[test]
fn fanout_masks_per_subscription() {
    let mut svc = InotifyService::new();
    svc.register_watch(3, MASK_MODIFY, 100);
    svc.register_watch(3, MASK_CREATE, 101);
    svc.register_watch(4, MASK_MODIFY | MASK_CREATE, 102);
    let name = Some(b"entry".to_vec());
    let out = svc.handle_event(3, MASK_MODIFY | MASK_CREATE, 9, &name);
    assert_eq!(out.len(), 2);
    assert_eq!(out[0].0, 100);
    assert_eq!(out[0].1.mask, MASK_MODIFY);
    assert_eq!(out[0].1.cookie, 9);
    assert_eq!(out[0].1.name, Some(b"entry".to_vec()));
    assert_eq!(out[1].0, 101);
    assert_eq!(out[1].1.mask, MASK_CREATE);
}

#[test]
fn empty_intersection_is_suppressed() {
    let mut svc = InotifyService::new();
    svc.register_watch(3, MASK_MODIFY, 100);
    let out = svc.handle_event(3, MASK_CREATE, 0, &None);
    assert!(out.is_empty());
    // an event on a raw descriptor nobody watches goes nowhere
    let out = svc.handle_event(9, MASK_MODIFY, 0, &None);
    assert!(out.is_empty());
}

#[test]
fn subscription_state_machine() {
    let wd = WatchDescriptor(4);
    let s = WatchHandleState::Adding;
    let s = watch_handle_step(s, WatchHandleEvent::Added(wd));
    assert_eq!(s, WatchHandleState::Watching(wd));
    let s = watch_handle_step(s, WatchHandleEvent::Invalidated);
    assert_eq!(s, WatchHandleState::Closed);
    let t = watch_handle_step(WatchHandleState::Adding, WatchHandleEvent::AddFailed);
    assert_eq!(t, WatchHandleState::Closed);
}
