//! Descriptions of kernel events for watching a file for writes.
use vstd::prelude::*;

verus! {

pub const EVFILT_VNODE: i16 = -4;
pub const EV_ADD: u16 = 0x1;
pub const EV_ENABLE: u16 = 0x4;
pub const EV_CLEAR: u16 = 0x20;
pub const NOTE_DELETE: u32 = 0x0000_0001;
pub const NOTE_WRITE: u32 = 0x0000_0002;

/// A kernel event filter.
#[derive(Debug, Clone, Default)]
pub struct Kevent {
    pub ident: u64,
    pub filter: i16,
    pub flags: u16,
    pub fflags: u32,
    pub data: i64,
    pub udata: u64,
}

/// A time span for waiting on events.
#[derive(Debug)]
pub struct Timespec {
    /// seconds
    pub tv_sec: isize,
    /// nanoseconds
    pub v_nsec: usize,
}

impl Kevent {
    /// A filter that reports writes to, and deletion of, the file `fd`: some
    /// editors replace a file instead of writing it.
    #[must_use]
    pub fn wait_for_write_on(fd: i32) -> (r: Self)
        ensures
            r.ident == fd as u64,
            r.filter == EVFILT_VNODE,
            r.flags == EV_ADD | EV_ENABLE | EV_CLEAR,
            r.fflags == NOTE_DELETE | NOTE_WRITE,
            r.data == 0,
            r.udata == 0,
    {
        Self {
            ident: fd as u64,
            filter: EVFILT_VNODE,
            flags: EV_ADD | EV_ENABLE | EV_CLEAR,
            fflags: NOTE_DELETE | NOTE_WRITE,
            data: 0,
            udata: 0,
        }
    }
}

} // verus!
