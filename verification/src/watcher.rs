//! File system watching: which raw notifications become events, and how
//! the events of a burst are gathered and handed on.

use crate::text::{occurs_in, str_contains};
use vstd::prelude::*;
use vstd::string::StringSliceAdditionalSpecFns;

verus! {

/// File system events.
#[derive(Debug, Clone)]
pub enum WatcherEvent {
    Created(String),
    Modified(String),
    Deleted(String),
    Renamed(String, String),
    Changed(String),
    Error(String),
}

/// Configuration for the file watcher.
#[derive(Debug, Clone)]
pub struct WatcherConfig {
    /// Time over which the events of a burst are gathered, in
    /// milliseconds.
    pub debounce_ms: u64,
    /// A path that holds one of these is ignored.
    pub ignore_patterns: Vec<String>,
    /// Number of gathered events from which they are handed on at once.
    pub max_buffer_size: usize,
}

impl Default for WatcherConfig {
    fn default() -> (config: Self)
        ensures
            config.debounce_ms == 200,
            config.max_buffer_size == 100,
            config.ignore_patterns@.len() == 3,
            config.ignore_patterns@[0]@ == "node_modules"@,
            config.ignore_patterns@[1]@ == "target"@,
            config.ignore_patterns@[2]@ == ".git"@,
    {
        let mut ignore_patterns: Vec<String> = Vec::new();
        ignore_patterns.push("node_modules".to_owned());
        ignore_patterns.push("target".to_owned());
        ignore_patterns.push(".git".to_owned());
        WatcherConfig { debounce_ms: 200, ignore_patterns, max_buffer_size: 100 }
    }
}

/// The kinds of raw notification that the watcher tells apart.
#[derive(Debug, Clone, Copy, PartialEq, Eq, Structural)]
pub enum RawEventKind {
    CreateFile,
    CreateFolder,
    ModifyData,
    ModifyMetadata,
    RemoveFile,
    RemoveFolder,
    RenameBoth,
    Other,
}

/// A raw notification: its kind and the paths it names.
#[derive(Debug, Clone)]
pub struct RawEvent {
    pub kind: RawEventKind,
    pub paths: Vec<String>,
}

/// Whether the path holds one of the patterns.
pub open spec fn ignored(patterns: Seq<String>, path: Seq<char>) -> bool {
    exists|i: int|
        0 <= i < patterns.len() && occurs_in(
            vstd::utf8::encode_utf8(path),
            vstd::utf8::encode_utf8((#[trigger] patterns[i])@),
        )
}

/// Whether events on the path are ignored: the path holds one of the
/// patterns.
pub fn should_ignore(patterns: &Vec<String>, path: &str) -> (ignore: bool)
    ensures
        ignore == ignored(patterns@, path@),
{
    let mut i: usize = 0;
    while i < patterns.len()
        invariant
            i <= patterns@.len(),
            forall|k: int|
                0 <= k < i ==> !occurs_in(
                    vstd::utf8::encode_utf8(path@),
                    vstd::utf8::encode_utf8((#[trigger] patterns@[k])@),
                ),
        decreases patterns@.len() - i,
    {
        if str_contains(path, patterns[i].as_str()) {
            return true;
        }
        i += 1;
    }
    false
}

/// The event that a raw notification stands for: none for one without a
/// path or on an ignored path; else by its kind, a rename that names one
/// path only and every other kind counting as a change.
pub open spec fn converted(patterns: Seq<String>, event: RawEvent) -> Option<WatcherEvent> {
    if event.paths@.len() == 0 {
        None
    } else if ignored(patterns, event.paths@[0]@) {
        None
    } else {
        let path = event.paths@[0];
        Some(
            match event.kind {
                RawEventKind::CreateFile | RawEventKind::CreateFolder => WatcherEvent::Created(
                    path,
                ),
                RawEventKind::ModifyData | RawEventKind::ModifyMetadata => WatcherEvent::Modified(
                    path,
                ),
                RawEventKind::RemoveFile | RawEventKind::RemoveFolder => WatcherEvent::Deleted(
                    path,
                ),
                RawEventKind::RenameBoth => if event.paths@.len() >= 2 {
                    WatcherEvent::Renamed(path, event.paths@[1])
                } else {
                    WatcherEvent::Changed(path)
                },
                RawEventKind::Other => WatcherEvent::Changed(path),
            },
        )
    }
}

/// Convert a raw notification to an event.
pub fn convert_event(patterns: &Vec<String>, event: &RawEvent) -> (res: Option<WatcherEvent>)
    ensures
        res == converted(patterns@, *event),
{
    if event.paths.len() == 0 {
        return None;
    }
    if should_ignore(patterns, event.paths[0].as_str()) {
        return None;
    }
    let path = event.paths[0].clone();
    match event.kind {
        RawEventKind::CreateFile | RawEventKind::CreateFolder => Some(WatcherEvent::Created(path)),
        RawEventKind::ModifyData | RawEventKind::ModifyMetadata => Some(
            WatcherEvent::Modified(path),
        ),
        RawEventKind::RemoveFile | RawEventKind::RemoveFolder => Some(WatcherEvent::Deleted(path)),
        RawEventKind::RenameBoth => {
            if event.paths.len() >= 2 {
                Some(WatcherEvent::Renamed(path, event.paths[1].clone()))
            } else {
                Some(WatcherEvent::Changed(path))
            }
        },
        RawEventKind::Other => Some(WatcherEvent::Changed(path)),
    }
}

impl WatcherEvent {
    /// The path that the event is about: the new path of a rename; none
    /// for an error.
    pub open spec fn subject(self) -> Option<Seq<char>> {
        match self {
            WatcherEvent::Created(p) => Some(p@),
            WatcherEvent::Modified(p) => Some(p@),
            WatcherEvent::Deleted(p) => Some(p@),
            WatcherEvent::Changed(p) => Some(p@),
            WatcherEvent::Renamed(_, p) => Some(p@),
            WatcherEvent::Error(_) => None,
        }
    }

    /// The path that the event is about.
    pub fn path(&self) -> (path: Option<&String>)
        ensures
            match path {
                Some(p) => self.subject() == Some(p@),
                None => self.subject() is None,
            },
    {
        match self {
            WatcherEvent::Created(p) => Some(p),
            WatcherEvent::Modified(p) => Some(p),
            WatcherEvent::Deleted(p) => Some(p),
            WatcherEvent::Changed(p) => Some(p),
            WatcherEvent::Renamed(_, p) => Some(p),
            WatcherEvent::Error(_) => None,
        }
    }
}

/// Whether the event at place `at` is the last of the list about its
/// path. An error counts as the last about its own.
pub open spec fn last_about_path(events: Seq<WatcherEvent>, at: int) -> bool {
    events[at].subject() is None || forall|j: int|
        at < j < events.len() ==> (#[trigger] events[j]).subject() != events[at].subject()
}

/// The events from place `from` on, but for those that a later event
/// about the same path follows: of each path the last event stays, in its
/// place among the others.
pub open spec fn deduplicated(events: Seq<WatcherEvent>, from: int) -> Seq<WatcherEvent>
    decreases events.len() - from,
{
    if from < 0 || from >= events.len() {
        Seq::empty()
    } else if last_about_path(events, from) {
        seq![events[from]] + deduplicated(events, from + 1)
    } else {
        deduplicated(events, from + 1)
    }
}

/// Whether some text of `seen` is `text`.
pub open spec fn seen_has(seen: Seq<String>, text: Seq<char>) -> bool {
    exists|i: int| 0 <= i < seen.len() && (#[trigger] seen[i])@ == text
}

/// Whether some event from place `from` on is about the path.
pub open spec fn later_about(events: Seq<WatcherEvent>, from: int, path: Seq<char>) -> bool {
    exists|j: int| from <= j < events.len() && (#[trigger] events[j]).subject() == Some(path)
}

/// An event is the last about its path exactly if no later event is about
/// that path.
pub proof fn lemma_last_about_path(events: Seq<WatcherEvent>, at: int)
    requires
        0 <= at < events.len(),
    ensures
        last_about_path(events, at) <==> (events[at].subject() matches Some(path) ==> !later_about(
            events,
            at + 1,
            path,
        )),
{
    if events[at].subject() is Some {
        let path = events[at].subject()->0;
        if later_about(events, at + 1, path) {
            let j = choose|j: int|
                at + 1 <= j < events.len() && (#[trigger] events[j]).subject() == Some(path);
            assert(events[j].subject() == events[at].subject());
        }
    }
}

/// The events about a path from one place on are the event at that place
/// and those after it.
pub proof fn lemma_later_about(events: Seq<WatcherEvent>, at: int, path: Seq<char>)
    requires
        0 <= at < events.len(),
    ensures
        later_about(events, at, path) <==> (events[at].subject() == Some(path) || later_about(
            events,
            at + 1,
            path,
        )),
{
    if later_about(events, at + 1, path) {
        let j = choose|j: int|
            at + 1 <= j < events.len() && (#[trigger] events[j]).subject() == Some(path);
        assert(at <= j);
    }
    if later_about(events, at, path) {
        let j = choose|j: int| at <= j < events.len() && (#[trigger] events[j]).subject() == Some(
            path,
        );
        if j > at {
            assert(at + 1 <= j);
        }
    }
}

/// What a list of texts holds after one more was added.
pub proof fn lemma_seen_push(seen: Seq<String>, added: String, text: Seq<char>)
    ensures
        seen_has(seen.push(added), text) <==> (seen_has(seen, text) || added@ == text),
{
    let more = seen.push(added);
    if seen_has(seen, text) {
        let i = choose|i: int| 0 <= i < seen.len() && (#[trigger] seen[i])@ == text;
        assert(more[i] == seen[i]);
    }
    if added@ == text {
        assert(more[seen.len() as int]@ == text);
    }
    if seen_has(more, text) {
        let i = choose|i: int| 0 <= i < more.len() && (#[trigger] more[i])@ == text;
        if i < seen.len() {
            assert(seen[i] == more[i]);
        }
    }
}

/// Whether `seen` holds the text.
fn holds(seen: &Vec<String>, text: &String) -> (found: bool)
    ensures
        found == seen_has(seen@, text@),
{
    let mut i: usize = 0;
    while i < seen.len()
        invariant
            i <= seen@.len(),
            forall|k: int| 0 <= k < i ==> (#[trigger] seen@[k])@ != text@,
        decreases seen@.len() - i,
    {
        if seen[i] == *text {
            return true;
        }
        i += 1;
    }
    false
}

/// The paths seen are those of the events from `from` on.
pub open spec fn seen_from(seen: Seq<String>, events: Seq<WatcherEvent>, from: int) -> bool {
    forall|path: Seq<char>| #[trigger] seen_has(seen, path) <==> later_about(events, from, path)
}

/// Taking one more event into account keeps the paths seen in step.
proof fn lemma_seen_step(
    seen: Seq<String>,
    events: Seq<WatcherEvent>,
    at: int,
    added: Option<String>,
)
    requires
        0 <= at < events.len(),
        seen_from(seen, events, at + 1),
        match events[at].subject() {
            Some(path) => if later_about(events, at + 1, path) {
                added is None
            } else {
                added is Some && added->0@ == path
            },
            None => added is None,
        },
    ensures
        seen_from(
            match added {
                Some(text) => seen.push(text),
                None => seen,
            },
            events,
            at,
        ),
{
    let after = match added {
        Some(text) => seen.push(text),
        None => seen,
    };
    assert forall|path: Seq<char>| #[trigger] seen_has(after, path) <==> later_about(
        events,
        at,
        path,
    ) by {
        lemma_later_about(events, at, path);
        assert(seen_has(seen, path) <==> later_about(events, at + 1, path));
        if added is Some {
            lemma_seen_push(seen, added->0, path);
        }
    }
}

/// Drop every event that a later event about the same path follows.
pub fn deduplicate(events: Vec<WatcherEvent>) -> (kept: Vec<WatcherEvent>)
    ensures
        kept@ == deduplicated(events@, 0),
{
    let mut events = events;
    let ghost all = events@;
    let mut seen: Vec<String> = Vec::new();
    let mut kept: Vec<WatcherEvent> = Vec::new();
    proof {
        assert(events@ =~= all.take(events@.len() as int));
        assert forall|path: Seq<char>| #[trigger] seen_has(seen@, path) <==> later_about(
            all,
            all.len() as int,
            path,
        ) by {}
    }
    while events.len() > 0
        invariant
            events@ == all.take(events@.len() as int),
            events@.len() <= all.len(),
            kept@ == deduplicated(all, events@.len() as int),
            seen_from(seen@, all, events@.len() as int),
        decreases events@.len(),
    {
        let ghost at = events@.len() - 1;
        let ghost seen_before = seen@;
        let event = events.pop().unwrap();
        proof {
            assert(event == all[at]);
            assert(events@ =~= all.take(at));
            lemma_last_about_path(all, at);
        }
        let keep = match event.path() {
            Some(path) => {
                assert(seen_has(seen@, path@) <==> later_about(all, at + 1, path@));
                if holds(&seen, path) {
                    proof {
                        lemma_seen_step(seen_before, all, at, None);
                    }
                    false
                } else {
                    let added = path.clone();
                    proof {
                        lemma_seen_step(seen_before, all, at, Some(added));
                    }
                    seen.push(added);
                    true
                }
            },
            None => {
                proof {
                    lemma_seen_step(seen_before, all, at, None);
                }
                true
            },
        };
        if keep {
            kept.insert(0, event);
            proof {
                assert(kept@ =~= seq![all[at]] + deduplicated(all, at + 1));
            }
        }
    }
    kept
}

/// The events that the watcher has gathered, and when it last handed
/// events on.
pub struct EventBuffer {
    events: Vec<WatcherEvent>,
    last_flush: u64,
}

/// Whether gathered events are handed on at the time `now`: there are
/// some, and the debounce time has passed since the last flush or the
/// buffer is full.
pub open spec fn flush_due(
    gathered: nat,
    last_flush: u64,
    now: u64,
    debounce_ms: u64,
    max_buffer_size: usize,
) -> bool {
    gathered > 0 && ((now >= last_flush && now - last_flush >= debounce_ms) || gathered
        >= max_buffer_size)
}

impl EventBuffer {
    /// The gathered events, the oldest first.
    pub closed spec fn gathered(&self) -> Seq<WatcherEvent> {
        self.events@
    }

    /// Time of the last flush, in milliseconds on the caller's clock.
    pub closed spec fn flushed_at(&self) -> u64 {
        self.last_flush
    }

    /// An empty buffer, made at the time `now`.
    pub fn new(now: u64) -> (buffer: Self)
        ensures
            buffer.gathered() == Seq::<WatcherEvent>::empty(),
            buffer.flushed_at() == now,
    {
        EventBuffer { events: Vec::new(), last_flush: now }
    }

    /// Gather one event.
    pub fn push(&mut self, event: WatcherEvent)
        ensures
            final(self).gathered() == old(self).gathered().push(event),
            final(self).flushed_at() == old(self).flushed_at(),
    {
        self.events.push(event);
    }

    /// Number of gathered events.
    pub fn len(&self) -> (n: usize)
        ensures
            n == self.gathered().len(),
    {
        self.events.len()
    }

    /// Hand the gathered events on if a flush is due at the time `now`: of
    /// each path the last event, in the order in which they came. Nothing
    /// is handed on, and the buffer stays as it is, where no flush is due.
    pub fn poll(&mut self, now: u64, config: &WatcherConfig) -> (out: Vec<WatcherEvent>)
        ensures
            flush_due(
                old(self).gathered().len(),
                old(self).flushed_at(),
                now,
                config.debounce_ms,
                config.max_buffer_size,
            ) ==> {
                &&& out@ == deduplicated(old(self).gathered(), 0)
                &&& final(self).gathered() == Seq::<WatcherEvent>::empty()
                &&& final(self).flushed_at() == now
            },
            !flush_due(
                old(self).gathered().len(),
                old(self).flushed_at(),
                now,
                config.debounce_ms,
                config.max_buffer_size,
            ) ==> {
                &&& out@ == Seq::<WatcherEvent>::empty()
                &&& final(self).gathered() == old(self).gathered()
                &&& final(self).flushed_at() == old(self).flushed_at()
            },
    {
        let should_flush = self.events.len() > 0 && ((now >= self.last_flush && now
            - self.last_flush >= config.debounce_ms) || self.events.len()
            >= config.max_buffer_size);
        if should_flush {
            self.last_flush = now;
            let mut gathered: Vec<WatcherEvent> = Vec::new();
            std::mem::swap(&mut gathered, &mut self.events);
            deduplicate(gathered)
        } else {
            Vec::new()
        }
    }
}

} // verus!
