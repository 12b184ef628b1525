//! Tracking of the working directory of the process behind a terminal.
//! The tracker decides when the directory is looked up again and whether a
//! lookup brought a change; the lookup itself is the caller's.

use vstd::prelude::*;

verus! {

/// Polling interval of a new tracker, in milliseconds.
pub const DEFAULT_POLL_INTERVAL_MS: u64 = 500;

/// Polling interval for the focused pane of the active workspace, in
/// milliseconds.
pub const FOCUSED_POLL_INTERVAL_MS: u64 = 500;

/// Polling interval for every other pane, in milliseconds.
pub const UNFOCUSED_POLL_INTERVAL_MS: u64 = 2000;

/// Tracks the working directory of a terminal's process.
pub struct PtyTracker {
    /// Process id of the terminal's child.
    pid: u32,
    /// Last known current working directory.
    current_dir: String,
    /// Time of the last poll, in milliseconds on the caller's clock.
    last_poll: u64,
    /// Polling interval, in milliseconds.
    poll_interval: u64,
}

/// What a `PtyTracker` stands for in contracts.
pub struct PtyTrackerView {
    pub pid: u32,
    pub current_dir: Seq<char>,
    pub last_poll: u64,
    pub poll_interval: u64,
}

impl View for PtyTracker {
    type V = PtyTrackerView;

    closed spec fn view(&self) -> PtyTrackerView {
        PtyTrackerView {
            pid: self.pid,
            current_dir: self.current_dir@,
            last_poll: self.last_poll,
            poll_interval: self.poll_interval,
        }
    }
}

/// Whether a poll is due at the time `now`: the interval has passed since
/// the last poll. A clock that ran backwards counts as no time passed.
pub open spec fn poll_due(tracker: PtyTrackerView, now: u64) -> bool {
    now >= tracker.last_poll && now - tracker.last_poll >= tracker.poll_interval
}

/// The polling interval of a pane: the short one for the focused pane of
/// the active workspace, the long one for every other.
pub fn poll_interval_for(is_active_workspace: bool, is_focused_pane: bool) -> (ms: u64)
    ensures
        ms == if is_active_workspace && is_focused_pane {
            FOCUSED_POLL_INTERVAL_MS
        } else {
            UNFOCUSED_POLL_INTERVAL_MS
        },
{
    if is_active_workspace && is_focused_pane {
        FOCUSED_POLL_INTERVAL_MS
    } else {
        UNFOCUSED_POLL_INTERVAL_MS
    }
}

impl PtyTracker {
    /// Create a new tracker for the given process id, from the working
    /// directory that a first lookup at the time `now` gave. Returns `None`
    /// if the lookup gave none.
    pub fn new(pid: u32, current_dir: Option<String>, now: u64) -> (tracker: Option<Self>)
        ensures
            match (tracker, current_dir) {
                (Some(t), Some(dir)) => t@ == (PtyTrackerView {
                    pid,
                    current_dir: dir@,
                    last_poll: now,
                    poll_interval: DEFAULT_POLL_INTERVAL_MS,
                }),
                (None, None) => true,
                _ => false,
            },
    {
        match current_dir {
            Some(current_dir) => Some(
                PtyTracker {
                    pid,
                    current_dir,
                    last_poll: now,
                    poll_interval: DEFAULT_POLL_INTERVAL_MS,
                },
            ),
            None => None,
        }
    }

    /// Get the process id being tracked.
    pub fn pid(&self) -> (pid: u32)
        ensures
            pid == self@.pid,
    {
        self.pid
    }

    /// Get the last known current working directory.
    pub fn current_dir(&self) -> (dir: &String)
        ensures
            dir@ == self@.current_dir,
    {
        &self.current_dir
    }

    /// Set the polling interval, in milliseconds.
    pub fn set_interval(&mut self, interval: u64)
        ensures
            final(self)@ == (PtyTrackerView { poll_interval: interval, ..old(self)@ }),
    {
        self.poll_interval = interval;
    }

    /// Whether the interval has passed since the last poll, so that the
    /// working directory is to be looked up and handed to `poll`.
    pub fn is_due(&self, now: u64) -> (due: bool)
        ensures
            due == poll_due(self@, now),
    {
        now >= self.last_poll && now - self.last_poll >= self.poll_interval
    }

    /// Poll for a change of the working directory, with what a lookup at
    /// the time `now` gave. Nothing happens before the interval has passed.
    /// Else the time of the poll is recorded, and a directory that differs
    /// from the last known one replaces it; a lookup that gave none keeps
    /// the last known one. Returns whether the directory has changed.
    pub fn poll(&mut self, now: u64, looked_up: Option<String>) -> (changed: bool)
        ensures
            changed == (poll_due(old(self)@, now) && looked_up is Some && looked_up->0@ != old(
                self,
            )@.current_dir),
            final(self)@ == if !poll_due(old(self)@, now) {
                old(self)@
            } else if changed {
                PtyTrackerView { current_dir: looked_up->0@, last_poll: now, ..old(self)@ }
            } else {
                PtyTrackerView { last_poll: now, ..old(self)@ }
            },
    {
        if !self.is_due(now) {
            return false;
        }
        self.last_poll = now;
        match looked_up {
            Some(new_dir) => {
                if new_dir != self.current_dir {
                    self.current_dir = new_dir;
                    return true;
                }
            },
            None => {},
        }
        false
    }
}

/// The decimal number that the digits spell, if they are digits only, at
/// least one, and the number fits in 32 bits.
pub open spec fn decimal_u32(digits: Seq<u8>) -> Option<u32>
    decreases digits.len(),
{
    if digits.len() == 0 {
        None
    } else {
        let last = digits.last();
        if !(0x30 <= last <= 0x39) {
            None
        } else if digits.len() == 1 {
            Some((last - 0x30) as u32)
        } else {
            match decimal_u32(digits.drop_last()) {
                Some(head) => if head * 10 + (last - 0x30) <= u32::MAX {
                    Some((head * 10 + (last - 0x30)) as u32)
                } else {
                    None
                },
                None => None,
            }
        }
    }
}

/// Whether a byte is ASCII white space.
pub open spec fn is_space(byte: u8) -> bool {
    byte == 0x20 || (0x09 <= byte <= 0x0d)
}

/// Place of the last `)` in the line, or -1.
pub open spec fn last_paren(line: Seq<u8>) -> int
    decreases line.len(),
{
    if line.len() == 0 {
        -1
    } else if line.last() == 0x29 {
        line.len() - 1
    } else {
        last_paren(line.drop_last())
    }
}

/// First place from `from` on that holds no white space; the end of the
/// line where there is none.
pub open spec fn skip_spaces(line: Seq<u8>, from: int) -> int
    decreases line.len() - from,
{
    if 0 <= from < line.len() && is_space(line[from]) {
        skip_spaces(line, from + 1)
    } else {
        from
    }
}

/// First place from `from` on that holds white space; the end of the line
/// where there is none.
pub open spec fn skip_word(line: Seq<u8>, from: int) -> int
    decreases line.len() - from,
{
    if 0 <= from < line.len() && !is_space(line[from]) {
        skip_word(line, from + 1)
    } else {
        from
    }
}

/// The parent process id in a process status line of the form
/// `pid (name) state ppid ...`: the second word after the last `)`, read
/// from two bytes behind it, as a decimal number with or without a plus
/// sign before it. `None` where the line has no `)`, ends within two bytes
/// of it, has fewer than two words behind it, or the second is no number
/// of 32 bits.
pub open spec fn stat_parent_pid(line: Seq<u8>) -> Option<u32> {
    let close = last_paren(line);
    if close < 0 || close + 2 > line.len() {
        None
    } else {
        let state_from = skip_spaces(line, close + 2);
        let state_to = skip_word(line, state_from);
        let ppid_from = skip_spaces(line, state_to);
        let ppid_to = skip_word(line, ppid_from);
        if state_from >= line.len() || ppid_from >= line.len() {
            None
        } else if line[ppid_from] == 0x2b {
            decimal_u32(line.subrange(ppid_from + 1, ppid_to))
        } else {
            decimal_u32(line.subrange(ppid_from, ppid_to))
        }
    }
}

/// The ends of the skips lie in the line, at or after their start.
pub proof fn lemma_skips(line: Seq<u8>, from: int)
    requires
        0 <= from <= line.len(),
    ensures
        from <= skip_spaces(line, from) <= line.len(),
        from <= skip_word(line, from) <= line.len(),
    decreases line.len() - from,
{
    if from < line.len() {
        lemma_skips(line, from + 1);
    }
}

fn space(byte: u8) -> (b: bool)
    ensures
        b == is_space(byte),
{
    byte == 0x20 || (0x09 <= byte && byte <= 0x0d)
}

fn spaces_end(line: &[u8], from: usize) -> (to: usize)
    requires
        from <= line@.len(),
    ensures
        to == skip_spaces(line@, from as int),
        from <= to <= line@.len(),
{
    let mut at = from;
    while at < line.len() && space(line[at])
        invariant
            from <= at <= line@.len(),
            skip_spaces(line@, from as int) == skip_spaces(line@, at as int),
        decreases line@.len() - at,
    {
        at += 1;
    }
    at
}

fn word_end(line: &[u8], from: usize) -> (to: usize)
    requires
        from <= line@.len(),
    ensures
        to == skip_word(line@, from as int),
        from <= to <= line@.len(),
{
    let mut at = from;
    while at < line.len() && !space(line[at])
        invariant
            from <= at <= line@.len(),
            skip_word(line@, from as int) == skip_word(line@, at as int),
        decreases line@.len() - at,
    {
        at += 1;
    }
    at
}

/// Parse the decimal digits of `line` from `from` up to `to`.
fn parse_decimal(line: &[u8], from: usize, to: usize) -> (res: Option<u32>)
    requires
        from <= to <= line@.len(),
    ensures
        res == decimal_u32(line@.subrange(from as int, to as int)),
{
    if from == to {
        return None;
    }
    let ghost digits = line@.subrange(from as int, to as int);
    let mut value: u32 = 0;
    let mut at = from;
    while at < to
        invariant
            from <= at <= to <= line@.len(),
            digits == line@.subrange(from as int, to as int),
            at > from ==> decimal_u32(digits.take(at - from)) == Some(value),
            at == from ==> value == 0,
        decreases to - at,
    {
        let byte = line[at];
        proof {
            assert(digits.take(at - from + 1).drop_last() =~= digits.take(at - from));
            assert(digits.take(at - from + 1).last() == byte);
        }
        if !(0x30 <= byte && byte <= 0x39) {
            proof {
                lemma_decimal_prefix(digits, at - from + 1);
            }
            return None;
        }
        let digit = (byte - 0x30) as u32;
        if value > (u32::MAX - digit) / 10 {
            proof {
                lemma_decimal_prefix(digits, at - from + 1);
            }
            return None;
        }
        value = value * 10 + digit;
        at += 1;
    }
    proof {
        assert(digits.take(at - from) =~= digits);
    }
    Some(value)
}

/// A text with a prefix that spells no number spells none.
pub proof fn lemma_decimal_prefix(digits: Seq<u8>, len: int)
    requires
        0 < len <= digits.len(),
        decimal_u32(digits.take(len)) is None,
    ensures
        decimal_u32(digits) is None,
    decreases digits.len() - len,
{
    if len < digits.len() {
        assert(digits.take(len + 1).drop_last() =~= digits.take(len));
        lemma_decimal_prefix(digits, len + 1);
    } else {
        assert(digits.take(len) =~= digits);
    }
}

/// Read the parent process id from a process status line of the form
/// `pid (name) state ppid ...`.
pub fn parse_stat_parent_pid(line: &[u8]) -> (ppid: Option<u32>)
    ensures
        ppid == stat_parent_pid(line@),
{
    let mut close: usize = line.len();
    assert(line@.take(close as int) =~= line@);
    while close > 0 && line[close - 1] != 0x29
        invariant
            close <= line@.len(),
            last_paren(line@) == last_paren(line@.take(close as int)),
        decreases close,
    {
        proof {
            assert(line@.take(close as int).drop_last() =~= line@.take(close - 1));
        }
        close -= 1;
    }
    proof {
        if close == line@.len() {
            assert(line@.take(close as int) =~= line@);
        }
    }
    if close == 0 {
        return None;
    }
    let close = close - 1;
    if line.len() - close < 2 {
        return None;
    }
    let state_from = spaces_end(line, close + 2);
    let state_to = word_end(line, state_from);
    let ppid_from = spaces_end(line, state_to);
    let ppid_to = word_end(line, ppid_from);
    if state_from >= line.len() || ppid_from >= line.len() {
        return None;
    }
    if line[ppid_from] == 0x2b {
        proof {
            lemma_skips(line@, ppid_from + 1);
        }
        parse_decimal(line, ppid_from + 1, ppid_to)
    } else {
        parse_decimal(line, ppid_from, ppid_to)
    }
}

} // verus!
