//! Watching a directory: what its change notifications say, and who closes
//! which handle when the watching ends.

use crate::dragout::{le16_all, le32};
use crate::text::{utf16, utf16_lossy};
use vstd::prelude::*;

verus! {

pub const FILE_ACTION_ADDED: u32 = 1;

pub const FILE_ACTION_MODIFIED: u32 = 3;

pub const FILE_ACTION_RENAMED_NEW_NAME: u32 = 5;

/// Where in a notification its name begins, behind three numbers.
pub const NAME_OFFSET: u32 = 12;

/// How long to wait before a directory is opened again, in seconds.
pub const RETRY_SECONDS: u64 = 3;

/// The number in the four bytes from `i` on, the least significant first.
pub open spec fn u32_at(buf: Seq<u8>, i: int) -> int {
    buf[i] + 0x100 * buf[i + 1] + 0x1_0000 * buf[i + 2] + 0x100_0000 * buf[i + 3]
}

/// The `n` two-byte numbers from `i` on, the least significant byte first.
pub open spec fn u16s_at(buf: Seq<u8>, i: int, n: nat) -> Seq<u16> {
    Seq::new(n, |k: int| (buf[i + 2 * k] + 0x100 * buf[i + 2 * k + 1]) as u16)
}

/// A file has come into being or changed, under the name that is given.
pub open spec fn is_news(action: int) -> bool {
    action == FILE_ACTION_ADDED || action == FILE_ACTION_MODIFIED || action
        == FILE_ACTION_RENAMED_NEW_NAME
}

/// There is a whole notification at `off`: within the first `filled` bytes, it
/// and its name behind it.
pub open spec fn record_fits(buf: Seq<u8>, filled: int, off: int) -> bool {
    off + NAME_OFFSET <= filled && off + NAME_OFFSET + u32_at(buf, off + 8) <= filled
}

/// The name in the notification at `off`.
pub open spec fn name_at(buf: Seq<u8>, off: int) -> Seq<char> {
    utf16_lossy(u16s_at(buf, off + NAME_OFFSET, (u32_at(buf, off + 8) / 2) as nat))
}

/// The names in the notifications from `off` on.  Each says how far the next
/// one is, the last one that there is none.
pub open spec fn names_from(buf: Seq<u8>, filled: int, off: int) -> Seq<Seq<char>>
    decreases
            if off < filled {
                filled - off
            } else {
                0
            },
{
    if !record_fits(buf, filled, off) {
        Seq::empty()
    } else {
        let here = if is_news(u32_at(buf, off + 4)) {
            seq![name_at(buf, off)]
        } else {
            Seq::empty()
        };
        if u32_at(buf, off) <= 0 {
            here
        } else {
            here + names_from(buf, filled, off + u32_at(buf, off))
        }
    }
}

fn read_u32(buf: &Vec<u8>, i: usize) -> (r: u32)
    requires
        i + 4 <= buf.len(),
    ensures
        r == u32_at(buf@, i as int),
{
    buf[i] as u32 + 0x100 * (buf[i + 1] as u32) + 0x1_0000 * (buf[i + 2] as u32) + 0x100_0000 * (
    buf[i + 3] as u32)
}

fn read_u16s(buf: &Vec<u8>, i: usize, n: usize) -> (r: Vec<u16>)
    requires
        i + 2 * n <= buf.len(),
    ensures
        r@ == u16s_at(buf@, i as int, n as nat),
{
    let mut out: Vec<u16> = Vec::new();
    let mut k: usize = 0;
    while k < n
        invariant
            i + 2 * n <= buf.len(),
            k <= n,
            out@ == u16s_at(buf@, i as int, k as nat),
        decreases n - k,
    {
        let low: u16 = buf[i + 2 * k] as u16;
        let high: u16 = buf[i + 2 * k + 1] as u16;
        out.push(low + 0x100 * high);
        k += 1;
    }
    out
}

/// The names of the files that a block of notifications reports as new or
/// changed; the first `filled` bytes of `buf` hold the block.
pub fn changed_names(buf: &Vec<u8>, filled: u32) -> (names: Vec<String>)
    requires
        filled <= buf.len(),
    ensures
        crate::text::texts(names@) == names_from(buf@, filled as int, 0),
{
    let mut names: Vec<String> = Vec::new();
    let mut off: u64 = 0;
    let mut more: bool = true;
    assert(crate::text::texts(names@) == Seq::<Seq<char>>::empty());
    while more
        invariant
            filled <= buf.len(),
            more ==> off <= 0x1_0000_0000,
            more ==> crate::text::texts(names@) + names_from(buf@, filled as int, off as int)
                == names_from(buf@, filled as int, 0),
            !more ==> crate::text::texts(names@) == names_from(buf@, filled as int, 0),
        decreases
                if more {
                    0x1_0000_0001 - off
                } else {
                    0
                },
    {
        let ghost so_far = crate::text::texts(names@);
        if off + NAME_OFFSET as u64 > filled as u64 {
            more = false;
            assert(so_far + Seq::<Seq<char>>::empty() == so_far);
        } else {
            let at: usize = off as usize;
            let name_len: u32 = read_u32(buf, at + 8);
            if off + NAME_OFFSET as u64 + name_len as u64 > filled as u64 {
                more = false;
                assert(so_far + Seq::<Seq<char>>::empty() == so_far);
            } else {
                let action: u32 = read_u32(buf, at + 4);
                let next: u32 = read_u32(buf, at);
                if action == FILE_ACTION_ADDED || action == FILE_ACTION_MODIFIED || action
                    == FILE_ACTION_RENAMED_NEW_NAME {
                    let units: Vec<u16> = read_u16s(
                        buf,
                        at + NAME_OFFSET as usize,
                        (name_len / 2) as usize,
                    );
                    names.push(String::from_utf16_lossy(units.as_slice()));
                    assert(crate::text::texts(names@) == so_far + seq![
                        name_at(buf@, off as int),
                    ]);
                } else {
                    assert(crate::text::texts(names@) == so_far + Seq::<Seq<char>>::empty());
                }
                if next == 0 {
                    more = false;
                } else {
                    off = off + next as u64;
                    if off > filled as u64 {
                        more = false;
                    }
                }
            }
        }
    }
    names
}

/// Whether a block of notifications is passed on: if it names any file.
pub fn is_worth_telling(names: &Vec<String>) -> (r: bool)
    ensures
        r == (names@.len() > 0),
{
    names.len() > 0
}

/// What a watching thread shares with whoever stops it: whether it is to stop,
/// and the directory's handle.  Whoever takes the handle out closes it.
#[derive(Clone, Copy, PartialEq, Eq, Structural, Debug)]
pub struct DirWatcher {
    pub stopping: bool,
    pub handle: Option<usize>,
}

impl DirWatcher {
    /// The state once the thread was told to stop and the handle taken out.
    pub open spec fn stopped(self) -> DirWatcher {
        DirWatcher { stopping: true, handle: None }
    }

    /// The state once the thread took out its handle `h`, if it was still in.
    pub open spec fn without(self, h: usize) -> DirWatcher {
        if self.handle == Some(h) {
            DirWatcher { stopping: self.stopping, handle: None }
        } else {
            self
        }
    }

    /// A thread that is not to stop and has no handle yet.
    pub fn new() -> (r: DirWatcher)
        ensures
            r == (DirWatcher { stopping: false, handle: None }),
    {
        DirWatcher { stopping: false, handle: None }
    }

    /// Tells the thread to stop, and takes out the handle that is to be closed,
    /// which wakes the thread.
    pub fn stop(&mut self) -> (r: Option<usize>)
        ensures
            *final(self) == old(self).stopped(),
            r == old(self).handle,
    {
        let h: Option<usize> = self.handle;
        self.stopping = true;
        self.handle = None;
        h
    }

    /// The thread puts in the handle that it has opened.
    pub fn publish(&mut self, h: usize)
        ensures
            *final(self) == (DirWatcher { stopping: old(self).stopping, handle: Some(h) }),
    {
        self.handle = Some(h);
    }

    /// The thread is done with its handle `h`: it takes it out, and is to close
    /// it, unless it was taken out before.
    pub fn give_back(&mut self, h: usize) -> (close: bool)
        ensures
            *final(self) == old(self).without(h),
            close == (old(self).handle == Some(h)),
    {
        let mine: bool = match self.handle {
            Some(k) => k == h,
            None => false,
        };
        if mine {
            self.handle = None;
        }
        mine
    }
}

/// What a watching thread does next.
#[derive(Clone, Copy, PartialEq, Eq, Structural, Debug)]
pub enum WatchAction {
    /// Give back its handle, if it has one, and end.
    Finish(Option<usize>),
    /// Open the directory.
    Open,
    /// Wait for changes on the handle.
    Read(usize),
}

/// What a watching thread does next, by whether it is to stop and the handle it holds.
pub fn watch_action(stopping: bool, held: Option<usize>) -> (r: WatchAction)
    ensures
        r == if stopping {
            WatchAction::Finish(held)
        } else {
            match held {
                None => WatchAction::Open,
                Some(h) => WatchAction::Read(h),
            }
        },
{
    if stopping {
        WatchAction::Finish(held)
    } else {
        match held {
            None => WatchAction::Open,
            Some(h) => WatchAction::Read(h),
        }
    }
}

/// Whether the handle is of no more use after a read: it failed, or brought nothing.
pub fn read_lost(ok: bool, filled: u32) -> (r: bool)
    ensures
        r == (!ok || filled == 0),
{
    !ok || filled == 0
}

/// A watching thread and the handles that it has open.
pub struct Watching {
    pub shared: DirWatcher,
    /// The handle that the thread holds.
    pub held: Option<usize>,
    /// The thread has put its handle in.
    pub published: bool,
    /// The thread has ended.
    pub ended: bool,
    /// The handles that were opened for this directory and not closed.
    pub open: Set<usize>,
}

/// What can happen to it.
pub enum WatchEvent {
    /// The thread opens the directory and gets this handle.
    Opened(usize),
    /// The thread puts its handle in.
    Published,
    /// A read failed or brought nothing, and the thread gives back its handle.
    Lost,
    /// The thread sees that it is to stop, and ends.
    Finished,
    /// The thread is told to stop.
    Told,
    /// Whoever told it takes out the handle and closes it.
    Taken,
}

impl Watching {
    pub open spec fn start() -> Watching {
        Watching {
            shared: DirWatcher { stopping: false, handle: None },
            held: None,
            published: false,
            ended: false,
            open: Set::empty(),
        }
    }

    /// The event can happen now.  The system gives out no handle that is open.
    pub open spec fn possible(self, e: WatchEvent) -> bool {
        match e {
            WatchEvent::Opened(h) => !self.ended && self.held is None && !self.open.contains(h),
            WatchEvent::Published => self.held is Some && !self.published,
            WatchEvent::Lost => self.held is Some && self.published,
            WatchEvent::Finished => !self.ended && self.shared.stopping && (self.held is None
                || self.published),
            WatchEvent::Told => true,
            WatchEvent::Taken => self.shared.stopping,
        }
    }

    /// The handle that the event closes.
    pub open spec fn closes(self, e: WatchEvent) -> Option<usize> {
        match e {
            WatchEvent::Lost | WatchEvent::Finished => if self.held is Some && self.shared.handle
                == self.held {
                self.held
            } else {
                None
            },
            WatchEvent::Taken => self.shared.handle,
            _ => None,
        }
    }

    /// What has become of it after the event.
    pub open spec fn after(self, e: WatchEvent) -> Watching {
        let open = match self.closes(e) {
            Some(h) => self.open.remove(h),
            None => self.open,
        };
        match e {
            WatchEvent::Opened(h) => Watching {
                held: Some(h),
                published: false,
                open: open.insert(h),
                ..self
            },
            WatchEvent::Published => Watching {
                shared: DirWatcher { handle: self.held, ..self.shared },
                published: true,
                ..self
            },
            WatchEvent::Lost => Watching {
                shared: self.shared.without(self.held->0),
                held: None,
                published: false,
                open,
                ..self
            },
            WatchEvent::Finished => Watching {
                shared: match self.held {
                    Some(h) => self.shared.without(h),
                    None => self.shared,
                },
                held: None,
                published: false,
                ended: true,
                open,
            },
            WatchEvent::Told => Watching {
                shared: DirWatcher { stopping: true, ..self.shared },
                ..self
            },
            WatchEvent::Taken => Watching { shared: self.shared.stopped(), open, ..self },
        }
    }

    /// What is open is what the thread holds, unless it was taken out.
    pub open spec fn sound(self) -> bool {
        &&& self.ended ==> self.held is None
        &&& match self.held {
            None => self.shared.handle is None && !self.published && self.open
                == Set::<usize>::empty(),
            Some(h) => {
                &&& self.shared.handle is None || (self.published && self.shared.handle == Some(
                    h,
                ))
                &&& self.open == if !self.published || self.shared.handle is Some {
                    set![h]
                } else {
                    Set::<usize>::empty()
                }
            },
        }
    }
}

/// At the start nothing is open.
pub proof fn watching_starts_sound()
    ensures
        Watching::start().sound(),
{
}

/// However the thread and whoever stops it come one after the other, no handle
/// is closed that is not open, so none is closed twice.
pub proof fn no_handle_is_closed_twice(w: Watching, e: WatchEvent)
    requires
        w.sound(),
        w.possible(e),
    ensures
        w.after(e).sound(),
        w.closes(e) matches Some(h) ==> w.open.contains(h) && !w.after(e).open.contains(h),
{
    assert(w.after(e).open =~= match w.after(e).held {
        None => Set::<usize>::empty(),
        Some(h) => if !w.after(e).published || w.after(e).shared.handle is Some {
            set![h]
        } else {
            Set::<usize>::empty()
        },
    });
}

/// Once the thread has ended nothing is left open.
pub proof fn ended_thread_leaves_nothing_open(w: Watching)
    requires
        w.sound(),
        w.ended,
    ensures
        w.open == Set::<usize>::empty(),
        w.shared.handle is None,
{
}

/// Numbers are read with their least significant byte first.
pub proof fn least_significant_byte_is_read_first(front: Seq<u8>, a: u8, b: u8, c: u8, d: u8)
    ensures
        u32_at(front.push(a).push(b).push(c).push(d), front.len() as int) == a + 256 * b + 65536
            * c + 16777216 * d,
        u16s_at(front.push(a).push(b).push(c).push(d), front.len() as int, 2).len() == 2,
        u16s_at(front.push(a).push(b).push(c).push(d), front.len() as int, 2)[0] == a + 256 * b,
        u16s_at(front.push(a).push(b).push(c).push(d), front.len() as int, 2)[1] == c + 256 * d,
{
}

/// What counts as news is that a file was added, was modified, or has this name
/// now, and not that one was removed or had this name before.
pub proof fn what_counts_as_news(action: int)
    ensures
        is_news(action) <==> action == 1 || action == 3 || action == 5,
{
}

/// A change of a directory: what happened, to which file, and how many bytes are
/// left free behind its name.
pub struct Change {
    pub action: u32,
    pub name: Seq<char>,
    pub gap: nat,
}

/// A notification: how far the next one is, what happened, how long the name is
/// in bytes, and the name.
pub open spec fn notification(next: u32, action: u32, units: Seq<u16>) -> Seq<u8> {
    le32(next) + le32(action) + le32((2 * units.len()) as u32) + le16_all(units)
}

/// How many bytes a change takes.
pub open spec fn room_of(c: Change) -> nat {
    12 + 2 * utf16(c.name).len() + c.gap
}

/// Changes as the system reports them: one notification behind the other.
pub open spec fn report_of(changes: Seq<Change>) -> Seq<u8>
    decreases changes.len(),
{
    if changes.len() == 0 {
        Seq::empty()
    } else {
        let c = changes.first();
        let next = if changes.len() == 1 {
            0
        } else {
            room_of(c)
        };
        notification(next as u32, c.action, utf16(c.name)) + Seq::new(c.gap, |i: int| 0u8)
            + report_of(changes.drop_first())
    }
}

/// The names of the changes that tell that a file was added, was modified, or has
/// this name now.
pub open spec fn news_in(changes: Seq<Change>) -> Seq<Seq<char>>
    decreases changes.len(),
{
    if changes.len() == 0 {
        Seq::empty()
    } else {
        let c = changes.first();
        let rest = news_in(changes.drop_first());
        if c.action == 1 || c.action == 3 || c.action == 5 {
            seq![c.name] + rest
        } else {
            rest
        }
    }
}

proof fn lemma_number(buf: Seq<u8>, off: int, n: u32)
    requires
        0 <= off,
        off + 4 <= buf.len(),
        buf.subrange(off, off + 4) == le32(n),
    ensures
        u32_at(buf, off) == n,
{
    let r = buf.subrange(off, off + 4);
    assert(buf[off] == r[0] && buf[off + 1] == r[1] && buf[off + 2] == r[2] && buf[off + 3] == r[3]);
}

proof fn lemma_numbers(buf: Seq<u8>, off: int, units: Seq<u16>)
    requires
        0 <= off,
        off + 2 * units.len() <= buf.len(),
        buf.subrange(off, off + 2 * units.len()) == le16_all(units),
    ensures
        u16s_at(buf, off, units.len()) == units,
{
    let r = buf.subrange(off, off + 2 * units.len());
    assert forall|k: int| 0 <= k < units.len() implies u16s_at(buf, off, units.len())[k]
        == #[trigger] units[k] by {
        assert(buf[off + 2 * k] == r[2 * k]);
        assert(buf[off + 2 * k + 1] == r[2 * k + 1]);
    }
    assert(u16s_at(buf, off, units.len()) == units);
}

proof fn lemma_notification(buf: Seq<u8>, off: int, next: u32, action: u32, units: Seq<u16>)
    requires
        0 <= off,
        off + 12 + 2 * units.len() <= buf.len(),
        2 * units.len() <= u32::MAX,
        buf.subrange(off, off + 12 + 2 * units.len()) == notification(next, action, units),
    ensures
        u32_at(buf, off) == next,
        u32_at(buf, off + 4) == action,
        u32_at(buf, off + 8) == 2 * units.len(),
        u16s_at(buf, off + 12, units.len()) == units,
{
    let r = buf.subrange(off, off + 12 + 2 * units.len());
    let n = (2 * units.len()) as u32;
    assert(buf.subrange(off, off + 4) == r.subrange(0, 4));
    assert(r.subrange(0, 4) == le32(next));
    assert(buf.subrange(off + 4, off + 8) == r.subrange(4, 8));
    assert(r.subrange(4, 8) == le32(action));
    assert(buf.subrange(off + 8, off + 12) == r.subrange(8, 12));
    assert(r.subrange(8, 12) == le32(n));
    assert(buf.subrange(off + 12, off + 12 + 2 * units.len()) == r.skip(12));
    assert(r.skip(12) == le16_all(units));
    lemma_number(buf, off, next);
    lemma_number(buf, off + 4, action);
    lemma_number(buf, off + 8, n);
    lemma_numbers(buf, off + 12, units);
}

/// The changes that the system reports are read back: the names of those that are
/// news come out, all of them and in their order.
pub proof fn reported_changes_are_read(front: Seq<u8>, changes: Seq<Change>)
    requires
        front.len() + report_of(changes).len() <= u32::MAX,
    ensures
        names_from(
            front + report_of(changes),
            (front.len() + report_of(changes).len()) as int,
            front.len() as int,
        ) == news_in(changes),
    decreases changes.len(),
{
    let buf = front + report_of(changes);
    let off = front.len() as int;
    if changes.len() == 0 {
        assert(!record_fits(buf, buf.len() as int, off));
    } else {
        let c = changes.first();
        let tail = changes.drop_first();
        let units = utf16(c.name);
        let next = if changes.len() == 1 {
            0
        } else {
            room_of(c)
        };
        let head = notification(next as u32, c.action, units);
        let gap = Seq::new(c.gap, |i: int| 0u8);
        assert(report_of(changes) == head + gap + report_of(tail));
        assert(head.len() == 12 + 2 * units.len());
        assert(buf.subrange(off, off + 12 + 2 * units.len()) == head);
        lemma_notification(buf, off, next as u32, c.action, units);
        crate::text::decoding_undoes_encoding(c.name);
        assert(u32_at(buf, off + 8) / 2 == units.len());
        assert(name_at(buf, off) == c.name);
        assert(record_fits(buf, buf.len() as int, off));
        if changes.len() == 1 {
            assert(tail == Seq::<Change>::empty());
            assert(news_in(tail) == Seq::<Seq<char>>::empty());
            assert(seq![c.name] + Seq::<Seq<char>>::empty() == seq![c.name]);
        } else {
            let longer = front + head + gap;
            assert(longer + report_of(tail) == buf);
            assert(longer.len() == off + room_of(c));
            reported_changes_are_read(longer, tail);
            assert(Seq::<Seq<char>>::empty() + news_in(tail) == news_in(tail));
        }
    }
}

/// What is cut off is not read: where the block ends within a notification or its
/// name, nothing comes of it.
pub proof fn what_is_cut_off_is_not_read(buf: Seq<u8>, filled: int, off: int)
    ensures
        filled < off + 12 ==> names_from(buf, filled, off).len() == 0,
        filled < off + 12 + u32_at(buf, off + 8) ==> names_from(buf, filled, off).len() == 0,
{
}

/// Stopping leaves no handle to close; giving one back takes it out if it is the
/// one that is in, and leaves any other.
pub proof fn handle_is_given_back_once(d: DirWatcher, h: usize)
    ensures
        d.stopped().stopping && d.stopped().handle is None,
        d.without(h).stopping == d.stopping,
        d.without(h).handle != Some(h),
        d.handle != Some(h) ==> d.without(h).handle == d.handle,
        d.without(h).without(h) == d.without(h),
{
}

} // verus!
