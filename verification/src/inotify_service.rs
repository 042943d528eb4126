//! The notification service's bookkeeping: watch registration, the
//! last-subscriber release rule, and event fan-out with per-subscription
//! masking.
//!
//! The kernel calls themselves (init, add, remove, the blocking read loop)
//! run outside; this module owns the tables that decide what those calls are
//! given and which subscriber sees which event.

use vstd::prelude::*;

use crate::bytes::clone_bytes;
use crate::error::{Error, ErrorKind};

verus! {

pub const MASK_MODIFY: u32 = 0x2;

pub const MASK_MOVED_FROM: u32 = 0x40;

pub const MASK_MOVED_TO: u32 = 0x80;

pub const MASK_CREATE: u32 = 0x100;

pub const MASK_DELETE: u32 = 0x200;

pub const MASK_DELETE_SELF: u32 = 0x400;

pub const MASK_MOVE_SELF: u32 = 0x800;

pub const MASK_MOVE: u32 = MASK_MOVED_FROM | MASK_MOVED_TO;

pub const MASK_IGNORED: u32 = 0x8000;

pub const MASK_ONLYDIR: u32 = 0x01000000;

pub const MASK_DONT_FOLLOW: u32 = 0x02000000;

pub const MASK_EXCL_UNLINK: u32 = 0x04000000;

pub const MASK_MASK_ADD: u32 = 0x20000000;

pub const MASK_ISDIR: u32 = 0x40000000;

pub const MASK_ONESHOT: u32 = 0x80000000;

/// Mask bits a subscription may not request: they would break the service's
/// fan-out of one kernel watch to many subscribers.
pub const UNSUPPORTED_WATCH_MASK: u32 = MASK_DONT_FOLLOW | MASK_EXCL_UNLINK | MASK_MASK_ADD
    | MASK_ONESHOT | MASK_ONLYDIR;

/// One event as a subscription sees it: the bits it asked for, the kernel's
/// rename cookie, and the entry name if the event names one.
#[derive(Debug)]
pub struct Event {
    pub mask: u32,
    pub cookie: u32,
    pub name: Option<Vec<u8>>,
}

/// The name field of an event, as a sequence.
pub open spec fn opt_name_view(n: Option<Vec<u8>>) -> Option<Seq<u8>> {
    match n {
        Some(v) => Some(v@),
        None => None,
    }
}

/// Copies an optional entry name.
pub fn clone_opt_name(n: &Option<Vec<u8>>) -> (r: Option<Vec<u8>>)
    ensures
        opt_name_view(r) == opt_name_view(*n),
{
    match n {
        Some(v) => Some(clone_bytes(v)),
        None => None,
    }
}

/// A process-unique identifier for one logical subscription, minted
/// monotonically.
#[derive(Debug, Clone, Copy, PartialEq, Eq, Hash, Structural)]
pub struct WatchDescriptor(pub u64);

impl WatchDescriptor {
    /// Mints the current identifier and advances to the next.
    pub fn next(&mut self) -> (r: WatchDescriptor)
        requires
            old(self).0 < u64::MAX,
        ensures
            r.0 == old(self).0,
            final(self).0 == old(self).0 + 1,
    {
        let n = self.0;
        self.0 = self.0 + 1;
        WatchDescriptor(n)
    }
}

/// One registered subscription: its kernel watch, the bits it asked for, and
/// its outgoing channel.
#[derive(Debug, Clone, Copy, PartialEq, Eq, Structural)]
pub struct Watch {
    /// The logical subscription id.
    pub wd: u64,
    /// The raw kernel watch descriptor this subscription shares.
    pub raw_wd: i32,
    /// The event bits the subscriber chose.
    pub mask: u32,
    /// The channel the subscriber listens on.
    pub event_tx: u64,
}

/// Checks a requested mask and fixes what is handed to the kernel: rejected
/// bits give `InvalidInput`; an accepted mask is always added with mask-add
/// semantics, so one raw descriptor can serve subscribers with different
/// masks.
pub fn prepare_watch_mask(mask: u32) -> (r: Result<u32, Error>)
    ensures
        mask & UNSUPPORTED_WATCH_MASK == 0 <==> r is Ok,
        r matches Ok(m) ==> m == mask | MASK_MASK_ADD,
        r matches Err(e) ==> e.kind == ErrorKind::InvalidInput,
{
    if mask & UNSUPPORTED_WATCH_MASK != 0 {
        Err(Error::new(ErrorKind::InvalidInput))
    } else {
        Ok(mask | MASK_MASK_ADD)
    }
}

/// First index of subscription `wd` in `es`, or -1.
pub open spec fn find_wd(es: Seq<Watch>, wd: u64) -> int
    decreases es.len(),
{
    if es.len() == 0 {
        -1
    } else if es[0].wd == wd {
        0
    } else {
        let r = find_wd(es.drop_first(), wd);
        if r < 0 {
            -1
        } else {
            r + 1
        }
    }
}

pub proof fn lemma_find_wd_props(es: Seq<Watch>, wd: u64)
    ensures
        -1 <= find_wd(es, wd) < es.len(),
        find_wd(es, wd) >= 0 ==> es[find_wd(es, wd)].wd == wd,
        find_wd(es, wd) == -1 ==> forall|i: int| 0 <= i < es.len() ==> (#[trigger] es[i]).wd != wd,
        forall|i: int| 0 <= i < find_wd(es, wd) ==> (#[trigger] es[i]).wd != wd,
    decreases es.len(),
{
    if es.len() > 0 && es[0].wd != wd {
        lemma_find_wd_props(es.drop_first(), wd);
        assert(forall|i: int| 1 <= i < es.len() ==> es.drop_first()[i - 1] == #[trigger] es[i]);
    }
}

pub proof fn lemma_find_wd_char(es: Seq<Watch>, wd: u64, m: int)
    requires
        0 <= m <= es.len(),
        forall|j: int| 0 <= j < m ==> (#[trigger] es[j]).wd != wd,
        m == es.len() || es[m].wd == wd,
    ensures
        find_wd(es, wd) == if m == es.len() {
            -1
        } else {
            m
        },
    decreases es.len(),
{
    if es.len() > 0 && es[0].wd != wd {
        assert(forall|i: int| 1 <= i < es.len() ==> es.drop_first()[i - 1] == #[trigger] es[i]);
        lemma_find_wd_char(es.drop_first(), wd, m - 1);
    }
}

/// The deliveries one raw kernel event produces: for each subscription on
/// that raw descriptor, in registration order, the event masked down to the
/// subscription's bits — dropped entirely when nothing remains.
pub open spec fn fanout(es: Seq<Watch>, raw_wd: i32, mask: u32) -> Seq<(u64, u32)>
    decreases es.len(),
{
    if es.len() == 0 {
        Seq::empty()
    } else {
        let rest = fanout(es.drop_first(), raw_wd, mask);
        if es[0].raw_wd == raw_wd && mask & es[0].mask != 0 {
            seq![(es[0].event_tx, mask & es[0].mask)] + rest
        } else {
            rest
        }
    }
}

/// The notification service's tables: every live subscription, and the next
/// identifier to mint.
pub struct InotifyService {
    /// All live subscriptions.
    pub watches: Vec<Watch>,
    /// The next subscription identifier.
    pub next_wd: WatchDescriptor,
}

impl InotifyService {
    /// Subscription ids are unique and below the mint counter.
    pub open spec fn wf(self) -> bool {
        &&& forall|i: int, j: int|
            0 <= i < j < self.watches@.len() ==> (#[trigger] self.watches@[i]).wd != (
            #[trigger] self.watches@[j]).wd
        &&& forall|i: int|
            0 <= i < self.watches@.len() ==> (#[trigger] self.watches@[i]).wd < self.next_wd.0
    }

    /// A service with no subscriptions.
    pub fn new() -> (r: Self)
        ensures
            r.wf(),
            r.watches@ == Seq::<Watch>::empty(),
            r.next_wd.0 == 0,
    {
        InotifyService { watches: Vec::new(), next_wd: WatchDescriptor(0) }
    }

    /// Records a subscription after the kernel accepted the watch: a fresh
    /// identifier is minted and the entry appended.
    pub fn register_watch(&mut self, raw_wd: i32, mask: u32, event_tx: u64) -> (r: WatchDescriptor)
        requires
            old(self).wf(),
            old(self).next_wd.0 < u64::MAX,
        ensures
            final(self).wf(),
            r.0 == old(self).next_wd.0,
            final(self).next_wd.0 == old(self).next_wd.0 + 1,
            final(self).watches@ == old(self).watches@.push(
                Watch { wd: r.0, raw_wd, mask, event_tx },
            ),
    {
        let wd = self.next_wd.next();
        self.watches.push(Watch { wd: wd.0, raw_wd, mask, event_tx });
        wd
    }

    /// Drops subscription `wd`. The kernel watch is released only when the
    /// last subscription on its raw descriptor disappears; the returned
    /// descriptor, if any, is the one to release.
    pub fn remove_watch(&mut self, wd: u64) -> (release: Option<i32>)
        requires
            old(self).wf(),
        ensures
            final(self).wf(),
            final(self).next_wd == old(self).next_wd,
            ({
                let es = old(self).watches@;
                let f = find_wd(es, wd);
                if f < 0 {
                    final(self).watches@ == es && release == None::<i32>
                } else {
                    &&& final(self).watches@ == es.remove(f)
                    &&& release == if (exists|j: int|
                        0 <= j < es.remove(f).len() && (#[trigger] es.remove(f)[j]).raw_wd
                            == es[f].raw_wd) {
                        None::<i32>
                    } else {
                        Some(es[f].raw_wd)
                    }
                }
            }),
    {
        let ghost es = self.watches@;
        let n = self.watches.len();
        let mut i: usize = 0;
        loop
            invariant
                i <= n,
                n == es.len(),
                self.watches@ == es,
                forall|j: int| 0 <= j < i ==> (#[trigger] es[j]).wd != wd,
            ensures
                self.watches@ == es,
                i <= n,
                i as int == if find_wd(es, wd) < 0 {
                    n as int
                } else {
                    find_wd(es, wd)
                },
            decreases n - i,
        {
            if i == n {
                proof {
                    lemma_find_wd_char(es, wd, i as int);
                }
                break ;
            }
            let e = &self.watches[i];
            if e.wd == wd {
                proof {
                    lemma_find_wd_char(es, wd, i as int);
                }
                break ;
            }
            i = i + 1;
        }
        proof {
            lemma_find_wd_props(es, wd);
        }
        if i == n {
            return None;
        }
        let removed = self.watches.remove(i);
        let ghost es2 = self.watches@;
        proof {
            assert forall|i2: int, j2: int| 0 <= i2 < j2 < es2.len() implies (
            #[trigger] es2[i2]).wd != (#[trigger] es2[j2]).wd by {
                let a = if i2 < i as int {
                    i2
                } else {
                    i2 + 1
                };
                let b = if j2 < i as int {
                    j2
                } else {
                    j2 + 1
                };
                assert(es2[i2] == es[a]);
                assert(es2[j2] == es[b]);
            }
            assert forall|i2: int| 0 <= i2 < es2.len() implies (#[trigger] es2[i2]).wd < self
                .next_wd.0 by {
                let a = if i2 < i as int {
                    i2
                } else {
                    i2 + 1
                };
                assert(es2[i2] == es[a]);
            }
        }
        // does any other subscription still use this raw descriptor?
        let m = self.watches.len();
        let mut j: usize = 0;
        let mut still_used: bool = false;
        while j < m
            invariant
                j <= m,
                m == es2.len(),
                self.watches@ == es2,
                removed == es[find_wd(es, wd)],
                still_used == exists|x: int|
                    0 <= x < j && (#[trigger] es2[x]).raw_wd == removed.raw_wd,
            decreases m - j,
        {
            let e = &self.watches[j];
            if e.raw_wd == removed.raw_wd {
                still_used = true;
            }
            j = j + 1;
        }
        if still_used {
            None
        } else {
            Some(removed.raw_wd)
        }
    }

    /// Fans one raw kernel event out: each subscription sharing the raw
    /// descriptor gets the event masked down to its chosen bits, in
    /// registration order; empty intersections are suppressed.
    pub fn handle_event(&self, raw_wd: i32, mask: u32, cookie: u32, name: &Option<Vec<u8>>) -> (r:
        Vec<(u64, Event)>)
        ensures
            ({
                let fan = fanout(self.watches@, raw_wd, mask);
                &&& r@.len() == fan.len()
                &&& forall|k: int|
                    0 <= k < fan.len() ==> (#[trigger] r@[k]).0 == fan[k].0 && r@[k].1.mask
                        == fan[k].1 && r@[k].1.cookie == cookie && opt_name_view(r@[k].1.name)
                        == opt_name_view(*name)
            }),
    {
        let ghost es = self.watches@;
        let ghost fan = fanout(es, raw_wd, mask);
        let n = self.watches.len();
        let mut r: Vec<(u64, Event)> = Vec::new();
        let mut i: usize = 0;
        let ghost mut fb: Seq<(u64, u32)> = Seq::empty();
        proof {
            assert(es.skip(0) =~= es);
            assert(fan =~= fb + fanout(es.skip(0), raw_wd, mask));
        }
        while i < n
            invariant
                i <= n,
                n == es.len(),
                self.watches@ == es,
                fan == fanout(es, raw_wd, mask),
                fan == fb + fanout(es.skip(i as int), raw_wd, mask),
                fb.len() == r@.len(),
                forall|k: int|
                    0 <= k < fb.len() ==> fb[k] == ((#[trigger] r@[k]).0, r@[k].1.mask) && r@[k].1
                        .cookie == cookie && opt_name_view(r@[k].1.name) == opt_name_view(*name),
            decreases n - i,
        {
            let ghost rest = es.skip(i as int);
            proof {
                assert(rest[0] == es[i as int]);
                assert(rest.drop_first() =~= es.skip(i as int + 1));
            }
            let e = &self.watches[i];
            let masked = mask & e.mask;
            if e.raw_wd == raw_wd && masked != 0 {
                let ev = Event { mask: masked, cookie, name: clone_opt_name(name) };
                r.push((e.event_tx, ev));
                proof {
                    fb = fb.push((es[i as int].event_tx, masked));
                    assert(fanout(rest, raw_wd, mask) == seq![
                        (es[i as int].event_tx, masked),
                    ] + fanout(es.skip(i as int + 1), raw_wd, mask));
                    assert(fan =~= fb + fanout(es.skip(i as int + 1), raw_wd, mask));
                }
            } else {
                proof {
                    assert(fanout(rest, raw_wd, mask) == fanout(
                        es.skip(i as int + 1),
                        raw_wd,
                        mask,
                    ));
                }
            }
            i = i + 1;
        }
        proof {
            assert(es.skip(n as int) =~= Seq::<Watch>::empty());
            assert(fan =~= fb);
        }
        r
    }
}

/// The life of one subscription handle, as its holder sees it.
#[derive(Debug, Clone, Copy, PartialEq, Eq, Structural)]
pub enum WatchHandleState {
    /// The kernel call has not returned a descriptor yet.
    Adding,
    /// The subscription is live under this identifier.
    Watching(WatchDescriptor),
    /// The subscription ended: dropped, failed to add, or invalidated.
    Closed,
}

/// What can happen to a subscription handle.
#[derive(Debug, Clone, Copy, PartialEq, Eq, Structural)]
pub enum WatchHandleEvent {
    /// The kernel accepted the watch under this identifier.
    Added(WatchDescriptor),
    /// The kernel rejected the watch.
    AddFailed,
    /// The holder dropped the handle, or the kernel invalidated the watch.
    Invalidated,
}

/// The subscription state machine: `Adding` becomes `Watching` on a
/// successful add and `Closed` on a failed one; any invalidation closes.
pub fn watch_handle_step(state: WatchHandleState, event: WatchHandleEvent) -> (r: WatchHandleState)
    ensures
        r == match event {
            WatchHandleEvent::Added(wd) => if state is Adding {
                WatchHandleState::Watching(wd)
            } else {
                state
            },
            WatchHandleEvent::AddFailed => if state is Adding {
                WatchHandleState::Closed
            } else {
                state
            },
            WatchHandleEvent::Invalidated => WatchHandleState::Closed,
        },
{
    match event {
        WatchHandleEvent::Added(wd) => if matches!(state, WatchHandleState::Adding) {
            WatchHandleState::Watching(wd)
        } else {
            state
        },
        WatchHandleEvent::AddFailed => if matches!(state, WatchHandleState::Adding) {
            WatchHandleState::Closed
        } else {
            state
        },
        WatchHandleEvent::Invalidated => WatchHandleState::Closed,
    }
}

} // verus!
