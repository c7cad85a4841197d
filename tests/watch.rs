use mato::watch::{Kevent, EVFILT_VNODE};

#[test]
fn kevent_construction() {
    let kevent = Kevent::wait_for_write_on(0);
    assert!(kevent.ident == 0);
}

#[test]
fn kevent_filters_vnode_writes() {
    let kevent = Kevent::wait_for_write_on(7);
    assert_eq!(kevent.ident, 7);
    assert_eq!(kevent.filter, EVFILT_VNODE);
    assert_eq!(kevent.flags, 0x25);
    assert_eq!(kevent.fflags, 3);
}
