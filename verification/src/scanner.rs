//! Scanning a directory tree into the entries of the sidebar, within
//! limits on depth and on the number of entries. The scan decides which
//! directory is read next and what becomes of each listing; reading the
//! directories is the caller's.

use crate::ui::sidebar::FileEntry;
use vstd::prelude::*;
use vstd::string::StringSliceAdditionalSpecFns;

verus! {

/// One item of a directory listing.
#[derive(Debug, Clone)]
pub struct DirItem {
    /// The item's file name.
    pub name: String,
    /// The item's path.
    pub path: String,
    pub is_dir: bool,
}

/// A listing that the scan is part way through.
pub struct ScanFrame {
    /// The items of the directory, in the order of their paths.
    pub items: Vec<DirItem>,
    /// Place of the next item to take.
    pub next: usize,
    /// Depth of the items below the root of the scan.
    pub depth: usize,
}

/// Whether a file name marks a hidden file: it begins with a dot.
pub open spec fn hidden(name: Seq<char>) -> bool {
    vstd::utf8::encode_utf8(name).len() > 0 && vstd::utf8::encode_utf8(name)[0] == 0x2e
}

/// Whether a file name marks a hidden file.
pub fn is_hidden(name: &str) -> (h: bool)
    ensures
        h == hidden(name@),
{
    let bytes = name.as_bytes();
    bytes.len() > 0 && bytes[0] == 0x2e
}

/// The entry that an item of a listing becomes.
pub open spec fn entry_of(item: DirItem, depth: usize, is_last: bool) -> FileEntry {
    FileEntry {
        name: item.name,
        path: item.path,
        is_dir: item.is_dir,
        is_expanded: false,
        depth,
        is_last,
        git_status: None,
        is_pinned: false,
    }
}

/// The entries that the first `upto` items of a listing become at the
/// given depth: one for each item that is not hidden, in the order of the
/// items; the last item of the whole listing is marked as such.
pub open spec fn listed(items: Seq<DirItem>, depth: usize, upto: int) -> Seq<FileEntry>
    decreases upto,
{
    if upto <= 0 {
        Seq::empty()
    } else {
        listed(items, depth, upto - 1) + if hidden(items[upto - 1].name@) {
            Seq::empty()
        } else {
            seq![entry_of(items[upto - 1], depth, upto == items.len())]
        }
    }
}

/// The entries of one listing at the given depth, hidden items left out.
pub fn listing_entries(items: &Vec<DirItem>, depth: usize) -> (entries: Vec<FileEntry>)
    ensures
        entries@ == listed(items@, depth, items@.len() as int),
{
    let mut entries: Vec<FileEntry> = Vec::new();
    let mut i: usize = 0;
    while i < items.len()
        invariant
            i <= items@.len(),
            entries@ == listed(items@, depth, i as int),
        decreases items@.len() - i,
    {
        if is_hidden(items[i].name.as_str()) {
            assert(entries@ + Seq::<FileEntry>::empty() =~= entries@);
        } else {
            let entry = FileEntry {
                name: items[i].name.clone(),
                path: items[i].path.clone(),
                is_dir: items[i].is_dir,
                is_expanded: false,
                depth,
                is_last: i == items.len() - 1,
                git_status: None,
                is_pinned: false,
            };
            assert(entry == entry_of(items@[i as int], depth, i + 1 == items@.len()));
            entries.push(entry);
        }
        i += 1;
    }
    entries
}

/// How far the scan of one listing gets on its own.
pub enum FrameOutcome {
    /// The listing is done.
    Done,
    /// The scan ends: a limit is reached.
    Stop,
    /// The directory whose entry was taken last is to be read.
    Descend,
}

/// The scan of one listing from the item at place `next` on: the entries
/// it adds to `count` entries taken before, the place at which it rests,
/// and why. Hidden items are passed over; each other item becomes an
/// entry. The scan ends where `max_files` entries are taken and another
/// item is at hand, and where a directory would be read at `max_depth` or
/// with `max_files` entries taken; it rests after a directory that is to
/// be read.
pub open spec fn frame_run(
    items: Seq<DirItem>,
    next: int,
    depth: usize,
    count: int,
    max_depth: usize,
    max_files: usize,
) -> (Seq<FileEntry>, int, FrameOutcome)
    decreases items.len() - next,
{
    if next < 0 || next >= items.len() {
        (Seq::empty(), next, FrameOutcome::Done)
    } else if count >= max_files {
        (Seq::empty(), next, FrameOutcome::Stop)
    } else if hidden(items[next].name@) {
        frame_run(items, next + 1, depth, count, max_depth, max_files)
    } else {
        let entry = entry_of(items[next], depth, next == items.len() - 1);
        if items[next].is_dir {
            if depth + 1 >= max_depth || count + 1 >= max_files {
                (seq![entry], next + 1, FrameOutcome::Stop)
            } else {
                (seq![entry], next + 1, FrameOutcome::Descend)
            }
        } else {
            let rest = frame_run(items, next + 1, depth, count + 1, max_depth, max_files);
            (seq![entry] + rest.0, rest.1, rest.2)
        }
    }
}

/// Where a scan rests: the entries it has added, the listings it is part
/// way through, and the directory that it waits for, if any, with the
/// depth of that directory's items.
pub struct ScanRest {
    pub added: Seq<FileEntry>,
    pub frames: Seq<ScanFrame>,
    pub wanted: Option<String>,
    pub wanted_depth: usize,
}

/// The scan through the open listings, the innermost first, with `count`
/// entries taken before: each listing is run from where it rests; one that
/// is done gives way to the listing around it; a limit ends the scan and
/// closes every listing; a directory that is to be read is waited for.
pub open spec fn stack_run(
    frames: Seq<ScanFrame>,
    count: int,
    max_depth: usize,
    max_files: usize,
) -> ScanRest
    decreases frames.len(),
{
    if frames.len() == 0 {
        ScanRest { added: Seq::empty(), frames: Seq::empty(), wanted: None, wanted_depth: 0 }
    } else {
        let top = frames.last();
        let run = frame_run(top.items@, top.next as int, top.depth, count, max_depth, max_files);
        match run.2 {
            FrameOutcome::Done => {
                let rest = stack_run(
                    frames.drop_last(),
                    count + run.0.len(),
                    max_depth,
                    max_files,
                );
                ScanRest { added: run.0 + rest.added, ..rest }
            },
            FrameOutcome::Stop => ScanRest {
                added: run.0,
                frames: Seq::empty(),
                wanted: None,
                wanted_depth: 0,
            },
            FrameOutcome::Descend => ScanRest {
                added: run.0,
                frames: frames.drop_last().push(
                    ScanFrame { items: top.items, next: run.1 as usize, depth: top.depth },
                ),
                wanted: Some(top.items@[run.1 - 1].path),
                wanted_depth: (top.depth + 1) as usize,
            },
        }
    }
}

/// A scan in progress.
pub struct DirScan {
    entries: Vec<FileEntry>,
    stack: Vec<ScanFrame>,
    pending: Option<String>,
    pending_depth: usize,
    max_depth: usize,
    max_files: usize,
}

impl DirScan {
    /// The entries taken so far.
    pub closed spec fn taken(&self) -> Seq<FileEntry> {
        self.entries@
    }

    /// The listings that the scan is part way through, the outermost
    /// first.
    pub closed spec fn open_frames(&self) -> Seq<ScanFrame> {
        self.stack@
    }

    /// The directory to be read next, if the scan waits for one.
    pub closed spec fn wanted(&self) -> Option<String> {
        self.pending
    }

    /// Depth of the items of the directory to be read next.
    pub closed spec fn wanted_depth(&self) -> usize {
        self.pending_depth
    }

    /// Limits of the scan: depth and number of entries.
    pub closed spec fn limits(&self) -> (usize, usize) {
        (self.max_depth, self.max_files)
    }

    /// The invariants of a scan: no more entries than the limit allows, and
    /// each frame rests within its listing.
    pub open spec fn well_formed(&self) -> bool {
        &&& self.taken().len() <= self.limits().1
        &&& forall|i: int|
            0 <= i < self.open_frames().len() ==> (#[trigger] self.open_frames()[i]).next
                <= self.open_frames()[i].items@.len()
        &&& self.wanted() is Some ==> self.wanted_depth() < self.limits().0 && self.taken().len()
            < self.limits().1
    }

    /// Begin the scan of the directory `root`, with at most `max_depth`
    /// levels and at most `max_files` entries. The root is to be read
    /// unless a limit is zero.
    pub fn new(root: String, max_depth: usize, max_files: usize) -> (scan: Self)
        ensures
            scan.well_formed(),
            scan.taken() == Seq::<FileEntry>::empty(),
            scan.open_frames() == Seq::<ScanFrame>::empty(),
            scan.limits() == (max_depth, max_files),
            scan.wanted_depth() == 0,
            scan.wanted() == if max_depth > 0 && max_files > 0 {
                Some(root)
            } else {
                None
            },
    {
        DirScan {
            entries: Vec::new(),
            stack: Vec::new(),
            pending: if max_depth > 0 && max_files > 0 {
                Some(root)
            } else {
                None
            },
            pending_depth: 0,
            max_depth,
            max_files,
        }
    }

    /// The directory to be read next and handed to `feed`; `None` when
    /// the scan is over.
    pub fn next_request(&self) -> (dir: Option<&String>)
        ensures
            match dir {
                Some(d) => self.wanted() == Some(*d),
                None => self.wanted() is None,
            },
    {
        self.pending.as_ref()
    }

    /// Take the listing of the directory that the scan waits for, its
    /// items in the order of their paths, or `None` where the directory
    /// could not be read. The scan goes on through the listing, and through
    /// the listings it was part way through, until it needs the next
    /// directory, reaches a limit, or is through.
    pub fn feed(&mut self, listing: Option<Vec<DirItem>>)
        requires
            old(self).well_formed(),
            old(self).wanted() is Some,
        ensures
            final(self).well_formed(),
            final(self).limits() == old(self).limits(),
            ({
                let frames = match listing {
                    Some(items) => old(self).open_frames().push(
                        ScanFrame { items, next: 0, depth: old(self).wanted_depth() },
                    ),
                    None => old(self).open_frames(),
                };
                let rest = stack_run(
                    frames,
                    old(self).taken().len() as int,
                    old(self).limits().0,
                    old(self).limits().1,
                );
                &&& final(self).taken() == old(self).taken() + rest.added
                &&& final(self).open_frames() == rest.frames
                &&& final(self).wanted() == rest.wanted
                &&& final(self).wanted() is Some ==> final(self).wanted_depth() == rest.wanted_depth
            }),
    {
        let depth = self.pending_depth;
        self.pending = None;
        match listing {
            Some(items) => {
                let ghost held = self.stack@;
                self.stack.push(ScanFrame { items, next: 0, depth });
                proof {
                    assert forall|i: int| 0 <= i < self.stack@.len() implies (
                    #[trigger] self.stack@[i]).next <= self.stack@[i].items@.len() by {
                        if i < held.len() {
                            assert(self.stack@[i] == old(self).open_frames()[i]);
                        }
                    }
                }
            },
            None => {
                proof {
                    assert forall|i: int| 0 <= i < self.stack@.len() implies (
                    #[trigger] self.stack@[i]).next <= self.stack@[i].items@.len() by {
                        assert(self.stack@[i] == old(self).open_frames()[i]);
                    }
                }
            },
        }
        self.advance();
    }

    /// Goes on through the open listings, the innermost first, until the
    /// scan needs a directory, reaches a limit, or is through.
    fn advance(&mut self)
        requires
            old(self).pending is None,
            old(self).entries@.len() <= old(self).max_files,
            forall|i: int|
                0 <= i < old(self).stack@.len() ==> (#[trigger] old(self).stack@[i]).next <= old(
                    self,
                ).stack@[i].items@.len(),
        ensures
            final(self).well_formed(),
            final(self).max_depth == old(self).max_depth,
            final(self).max_files == old(self).max_files,
            ({
                let rest = stack_run(
                    old(self).stack@,
                    old(self).entries@.len() as int,
                    old(self).max_depth,
                    old(self).max_files,
                );
                &&& final(self).entries@ == old(self).entries@ + rest.added
                &&& final(self).stack@ == rest.frames
                &&& final(self).pending == rest.wanted
                &&& final(self).pending is Some ==> final(self).pending_depth == rest.wanted_depth
            }),
    {
        let ghost base = self.entries@;
        let ghost whole = stack_run(
            self.stack@,
            base.len() as int,
            self.max_depth,
            self.max_files,
        );
        assert(base + whole.added =~= self.entries@ + whole.added);
        while self.stack.len() > 0
            invariant
                base == old(self).entries@,
                whole == stack_run(
                    old(self).stack@,
                    base.len() as int,
                    old(self).max_depth,
                    old(self).max_files,
                ),
                self.max_depth == old(self).max_depth,
                self.max_files == old(self).max_files,
                self.pending is None,
                self.entries@.len() <= self.max_files,
                forall|i: int|
                    0 <= i < self.stack@.len() ==> (#[trigger] self.stack@[i]).next
                        <= self.stack@[i].items@.len(),
                ({
                    let rest = stack_run(
                        self.stack@,
                        self.entries@.len() as int,
                        self.max_depth,
                        self.max_files,
                    );
                    &&& base + whole.added == self.entries@ + rest.added
                    &&& whole.frames == rest.frames
                    &&& whole.wanted == rest.wanted
                    &&& whole.wanted_depth == rest.wanted_depth
                }),
            decreases self.stack@.len(),
        {
            let ghost before = self.entries@;
            let ghost frames = self.stack@;
            let ghost rest = stack_run(
                frames,
                before.len() as int,
                self.max_depth,
                self.max_files,
            );
            let mut frame = self.stack.pop().unwrap();
            let ghost top = frame;
            let ghost run = frame_run(
                frame.items@,
                frame.next as int,
                frame.depth,
                before.len() as int,
                self.max_depth,
                self.max_files,
            );
            proof {
                assert(self.stack@ =~= frames.drop_last());
                assert(top == frames.last());
            }
            let outcome = self.run_frame(&mut frame);
            match outcome {
                FrameOutcome::Done => {
                    proof {
                        let after = stack_run(
                            self.stack@,
                            self.entries@.len() as int,
                            self.max_depth,
                            self.max_files,
                        );
                        assert(rest.added == run.0 + after.added);
                        assert(before + rest.added =~= self.entries@ + after.added);
                    }
                },
                FrameOutcome::Stop => {
                    self.stack.clear();
                    proof {
                        assert(self.stack@ =~= Seq::<ScanFrame>::empty());
                    }
                    return ;
                },
                FrameOutcome::Descend => {
                    let child = frame.items[frame.next - 1].path.clone();
                    self.pending = Some(child);
                    self.pending_depth = frame.depth + 1;
                    let ghost held = self.stack@;
                    self.stack.push(frame);
                    proof {
                        assert forall|i: int| 0 <= i < self.stack@.len() implies (
                        #[trigger] self.stack@[i]).next <= self.stack@[i].items@.len() by {
                            if i < held.len() {
                                assert(self.stack@[i] == held[i]);
                            }
                        }
                        assert(frame == (ScanFrame {
                            items: top.items,
                            next: run.1 as usize,
                            depth: top.depth,
                        }));
                    }
                    return ;
                },
            }
        }
        proof {
            assert(self.stack@ =~= Seq::<ScanFrame>::empty());
        }
    }

    /// Runs through one listing.
    fn run_frame(&mut self, frame: &mut ScanFrame) -> (outcome: FrameOutcome)
        requires
            old(frame).next <= old(frame).items@.len(),
            old(self).entries@.len() <= old(self).max_files,
        ensures
            final(self).max_depth == old(self).max_depth,
            final(self).max_files == old(self).max_files,
            final(self).stack == old(self).stack,
            final(self).pending == old(self).pending,
            final(self).pending_depth == old(self).pending_depth,
            final(frame).items == old(frame).items,
            final(frame).depth == old(frame).depth,
            final(frame).next <= final(frame).items@.len(),
            final(self).entries@.len() <= final(self).max_files,
            ({
                let run = frame_run(
                    old(frame).items@,
                    old(frame).next as int,
                    old(frame).depth,
                    old(self).entries@.len() as int,
                    old(self).max_depth,
                    old(self).max_files,
                );
                &&& final(self).entries@ == old(self).entries@ + run.0
                &&& final(frame).next == run.1
                &&& outcome == run.2
                &&& outcome is Descend ==> final(frame).next > 0 && old(frame).depth + 1 < old(self).max_depth && final(self).entries@.len() < old(self).max_files
            }),
    {
        let ghost start = frame.next as int;
        let ghost base = self.entries@;
        assert(self.entries@ =~= base + Seq::<FileEntry>::empty());
        loop
            invariant
                frame.items == old(frame).items,
                frame.depth == old(frame).depth,
                frame.next <= frame.items@.len(),
                self.max_depth == old(self).max_depth,
                self.max_files == old(self).max_files,
                self.stack == old(self).stack,
                self.pending == old(self).pending,
                self.pending_depth == old(self).pending_depth,
                self.entries@.len() <= self.max_files,
                base == old(self).entries@,
                start == old(frame).next,
                base.len() <= self.entries@.len(),
                ({
                    let whole = frame_run(
                        frame.items@,
                        start,
                        frame.depth,
                        base.len() as int,
                        self.max_depth,
                        self.max_files,
                    );
                    let rest = frame_run(
                        frame.items@,
                        frame.next as int,
                        frame.depth,
                        self.entries@.len() as int,
                        self.max_depth,
                        self.max_files,
                    );
                    &&& base + whole.0 == self.entries@ + rest.0
                    &&& whole.1 == rest.1
                    &&& whole.2 == rest.2
                }),
            decreases frame.items@.len() - frame.next,
        {
            if frame.next >= frame.items.len() {
                proof {
                    assert(self.entries@ + Seq::<FileEntry>::empty() =~= self.entries@);
                }
                return FrameOutcome::Done;
            }
            if self.entries.len() >= self.max_files {
                proof {
                    assert(self.entries@ + Seq::<FileEntry>::empty() =~= self.entries@);
                }
                return FrameOutcome::Stop;
            }
            let idx = frame.next;
            let is_last = idx == frame.items.len() - 1;
            frame.next = idx + 1;
            if is_hidden(frame.items[idx].name.as_str()) {
                continue ;
            }
            let is_dir = frame.items[idx].is_dir;
            let ghost held = self.entries@;
            let entry = FileEntry {
                name: frame.items[idx].name.clone(),
                path: frame.items[idx].path.clone(),
                is_dir,
                is_expanded: false,
                depth: frame.depth,
                is_last,
                git_status: None,
                is_pinned: false,
            };
            assert(entry == entry_of(frame.items@[idx as int], frame.depth, is_last));
            self.entries.push(entry);
            proof {
                let rest = frame_run(
                    frame.items@,
                    idx as int,
                    frame.depth,
                    held.len() as int,
                    self.max_depth,
                    self.max_files,
                );
                if is_dir {
                    assert(held + rest.0 =~= self.entries@);
                } else {
                    let after = frame_run(
                        frame.items@,
                        idx + 1,
                        frame.depth,
                        (held.len() + 1) as int,
                        self.max_depth,
                        self.max_files,
                    );
                    assert(held + rest.0 =~= self.entries@ + after.0);
                }
            }
            if is_dir {
                if frame.depth >= self.max_depth || frame.depth + 1 >= self.max_depth
                    || self.entries.len() >= self.max_files {
                    return FrameOutcome::Stop;
                }
                return FrameOutcome::Descend;
            }
        }
    }

    /// The entries taken so far; all of them once the scan is over.
    pub fn entries(&self) -> (entries: &Vec<FileEntry>)
        ensures
            entries@ == self.taken(),
    {
        &self.entries
    }

    /// End the scan and hand over its entries.
    pub fn finish(self) -> (entries: Vec<FileEntry>)
        ensures
            entries@ == self.taken(),
    {
        self.entries
    }
}

} // verus!
