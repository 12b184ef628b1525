//! The tab bar: what it shows of each tab, and where a dragged tab lands.

use crate::geometry::{apart, is_apart, Pos, Rect};
use vstd::prelude::*;

verus! {

/// Information about a tab.
#[derive(Debug, Clone)]
pub struct TabInfo {
    pub name: String,
    pub is_modified: bool,
}

impl TabInfo {
    pub fn new(name: String) -> (tab: Self)
        ensures
            tab == (TabInfo { name, is_modified: false }),
    {
        TabInfo { name, is_modified: false }
    }
}

/// The x coordinate halfway between the left and the right edge of a
/// rectangle, rounded down.
pub open spec fn mid_x(rect: Rect) -> int {
    (rect.min.x + rect.max.x) / 2
}

/// The place at which a tab dropped at `cursor_pos` is inserted: before the
/// first tab whose rectangle holds the cursor in its left half, after it
/// where the right half holds the cursor. `None` where no tab holds it.
pub open spec fn tab_drop_place(cursor_pos: Pos, tab_rects: Seq<(usize, Rect)>) -> Option<int>
    decreases tab_rects.len(),
{
    if tab_rects.len() == 0 {
        None
    } else if tab_rects[0].1.spec_contains(cursor_pos) {
        if cursor_pos.x < mid_x(tab_rects[0].1) {
            Some(tab_rects[0].0 as int)
        } else {
            Some(tab_rects[0].0 + 1)
        }
    } else {
        tab_drop_place(cursor_pos, tab_rects.drop_first())
    }
}

/// Find drop zone for tab at cursor position.
pub fn find_tab_drop_zone(cursor_pos: Pos, tab_rects: &[(usize, Rect)]) -> (place: Option<usize>)
    requires
        forall|i: int| 0 <= i < tab_rects@.len() ==> (#[trigger] tab_rects@[i]).0 < usize::MAX,
    ensures
        match place {
            Some(at) => tab_drop_place(cursor_pos, tab_rects@) == Some(at as int),
            None => tab_drop_place(cursor_pos, tab_rects@) is None,
        },
{
    let mut i: usize = 0;
    assert(tab_rects@.skip(0) =~= tab_rects@);
    while i < tab_rects.len()
        invariant
            i <= tab_rects@.len(),
            forall|k: int| 0 <= k < tab_rects@.len() ==> (#[trigger] tab_rects@[k]).0 < usize::MAX,
            tab_drop_place(cursor_pos, tab_rects@) == tab_drop_place(
                cursor_pos,
                tab_rects@.skip(i as int),
            ),
        decreases tab_rects@.len() - i,
    {
        proof {
            assert(tab_rects@.skip(i as int)[0] == tab_rects@[i as int]);
            assert(tab_rects@.skip(i as int).drop_first() =~= tab_rects@.skip(i + 1));
        }
        let (idx, rect) = tab_rects[i];
        if rect.contains(cursor_pos) {
            let sum: i64 = rect.min.x as i64 + rect.max.x as i64;
            let mid: i64 = if sum >= 0 {
                sum / 2
            } else {
                -((1 - sum) / 2)
            };
            assert(mid == mid_x(rect));
            if (cursor_pos.x as i64) < mid {
                return Some(idx);
            }
            return Some(idx + 1);
        }
        i += 1;
    }
    None
}

/// The active tab after the tab at `from` has moved to `to`; as it was
/// where either index names no tab, or both are the same.
pub open spec fn active_after_move(active: usize, from: usize, to: usize, count: usize) -> int {
    if from != to && from < count && to < count {
        if active == from {
            to as int
        } else if from < active && to >= active {
            active - 1
        } else if from > active && to <= active {
            active + 1
        } else {
            active as int
        }
    } else {
        active as int
    }
}

/// The index of the active tab after the tab at `from` has moved to `to`,
/// among `count` tabs: the active tab stays the active one.
pub fn active_tab_after_move(active: usize, from: usize, to: usize, count: usize) -> (res: usize)
    requires
        active < count,
    ensures
        res == active_after_move(active, from, to, count),
        res < count,
{
    if from != to && from < count && to < count {
        if active == from {
            to
        } else if from < active && to >= active {
            active - 1
        } else if from > active && to <= active {
            active + 1
        } else {
            active
        }
    } else {
        active
    }
}

/// The index of the active tab after a tab was closed and `remaining` tabs
/// are left: as it was, or the last tab where it lay beyond.
pub fn active_tab_after_close(active: usize, remaining: usize) -> (res: usize)
    requires
        remaining >= 1,
    ensures
        res == if active >= remaining {
            remaining - 1
        } else {
            active as int
        },
        res < remaining,
{
    if active >= remaining {
        remaining - 1
    } else {
        active
    }
}

/// Pointer travel, in pixels, from which a press on a tab is a drag.
pub const TAB_DRAG_THRESHOLD: i64 = 5;

/// State of a tab drag.
#[derive(Debug, Clone, Copy)]
pub struct TabDragState {
    /// Index of the tab being dragged.
    pub source_index: usize,
    /// Pointer position at the press.
    pub start_pos: Pos,
    /// Current pointer position.
    pub current_pos: Pos,
    /// Has the pointer travelled the threshold?
    pub drag_active: bool,
}

impl TabDragState {
    /// The state after a press on the tab `source_index` at `pos`.
    pub fn begin(source_index: usize, pos: Pos) -> (state: Self)
        ensures
            state.source_index == source_index,
            state.start_pos == pos,
            state.current_pos == pos,
            !state.drag_active,
    {
        TabDragState { source_index, start_pos: pos, current_pos: pos, drag_active: false }
    }

    /// The state after the pointer has moved to `pos`.
    pub open spec fn moved_to(self, pos: Pos) -> TabDragState {
        TabDragState {
            source_index: self.source_index,
            start_pos: self.start_pos,
            current_pos: pos,
            drag_active: self.drag_active || apart(self.start_pos, pos, TAB_DRAG_THRESHOLD as int),
        }
    }

    /// Follow the pointer to `pos`. The press becomes a drag once the
    /// pointer is the threshold away from where it went down.
    pub fn update(&mut self, pos: Pos)
        ensures
            *final(self) == old(self).moved_to(pos),
    {
        self.current_pos = pos;
        if !self.drag_active {
            if is_apart(self.start_pos, pos, TAB_DRAG_THRESHOLD) {
                self.drag_active = true;
            }
        }
    }
}

/// How the tabs are reordered by a drop, and which tab is active then.
#[derive(Debug, Clone, Copy, PartialEq, Eq, Structural)]
pub struct TabMove {
    /// Index of the tab that moves.
    pub from: usize,
    /// Its index after the move.
    pub to: usize,
    /// Index of the active tab after the move.
    pub active: usize,
}

/// The move that a drop of the tab `source` at the place `drop_index`
/// makes among `count` tabs, of which `active` is the active one: the tab
/// goes to the place, counted without itself, and the active tab stays the
/// active one. `None` where the tab is dropped at its own place, or an
/// index names no tab or place.
pub open spec fn tab_move_for_drop(source: usize, drop_index: usize, active: usize, count: usize) -> Option<
    TabMove,
> {
    if source == drop_index || source >= count || drop_index > count || active >= count {
        None
    } else {
        let to = if source < drop_index {
            (drop_index - 1) as usize
        } else {
            drop_index
        };
        if to >= count {
            None
        } else {
            Some(
                TabMove {
                    from: source,
                    to,
                    active: if active == source {
                        to
                    } else if source < active && active <= to {
                        (active - 1) as usize
                    } else if source > active && active >= to {
                        (active + 1) as usize
                    } else {
                        active
                    },
                },
            )
        }
    }
}

/// The move that a drop of a dragged tab makes.
pub fn tab_move(source: usize, drop_index: usize, active: usize, count: usize) -> (res: Option<
    TabMove,
>)
    ensures
        res == tab_move_for_drop(source, drop_index, active, count),
        res matches Some(m) ==> m.from < count && m.to < count && m.active < count,
{
    if source == drop_index || source >= count || drop_index > count || active >= count {
        return None;
    }
    let to = if source < drop_index {
        drop_index - 1
    } else {
        drop_index
    };
    if to >= count {
        return None;
    }
    let new_active = if active == source {
        to
    } else if source < active && active <= to {
        active - 1
    } else if source > active && active >= to {
        active + 1
    } else {
        active
    };
    Some(TabMove { from: source, to, active: new_active })
}

/// Move the item at `from` to the place `to`.
pub fn move_item<T>(items: &mut Vec<T>, from: usize, to: usize)
    requires
        from < old(items)@.len(),
        to < old(items)@.len(),
    ensures
        final(items)@ == old(items)@.remove(from as int).insert(to as int, old(items)@[from as int]),
{
    let item = items.remove(from);
    items.insert(to, item);
}

/// One frame of a tab drag: the state after the frame, and the tab move
/// that the frame asks for, if any. A press on a tab arms a drag; the
/// drag follows the pointer; Escape cancels it; a release ends it, and
/// asks for the move where the drag was active and the pointer stands
/// over a tab.
pub fn tab_drag_step(
    state: Option<TabDragState>,
    pressed_on: Option<usize>,
    pointer_pos: Option<Pos>,
    released: bool,
    escape: bool,
    tab_rects: &[(usize, Rect)],
    active: usize,
    count: usize,
) -> (res: (Option<TabDragState>, Option<TabMove>))
    requires
        forall|i: int| 0 <= i < tab_rects@.len() ==> (#[trigger] tab_rects@[i]).0 < usize::MAX,
    ensures
        ({
            let armed = if state is None && pressed_on is Some && pointer_pos is Some {
                Some(
                    TabDragState {
                        source_index: pressed_on->0,
                        start_pos: pointer_pos->0,
                        current_pos: pointer_pos->0,
                        drag_active: false,
                    },
                )
            } else {
                state
            };
            let followed = match (armed, pointer_pos) {
                (Some(drag), Some(pos)) => Some(drag.moved_to(pos)),
                _ => armed,
            };
            &&& res.0 == if escape || released {
                None
            } else {
                followed
            }
            &&& res.1 == if followed is Some && released && followed->0.drag_active
                && pointer_pos is Some {
                match tab_drop_place(pointer_pos->0, tab_rects@) {
                    Some(place) => tab_move_for_drop(
                        followed->0.source_index,
                        place as usize,
                        active,
                        count,
                    ),
                    None => None,
                }
            } else {
                None
            }
        }),
{
    let mut state = state;
    if state.is_none() {
        match (pressed_on, pointer_pos) {
            (Some(index), Some(pos)) => {
                state = Some(TabDragState::begin(index, pos));
            },
            _ => {},
        }
    }
    let drag = match state {
        Some(drag) => {
            let mut drag = drag;
            match pointer_pos {
                Some(pos) => {
                    drag.update(pos);
                },
                None => {},
            }
            drag
        },
        None => {
            return (None, None);
        },
    };
    if released {
        if drag.drag_active {
            match pointer_pos {
                Some(pos) => {
                    match find_tab_drop_zone(pos, tab_rects) {
                        Some(place) => {
                            return (None, tab_move(drag.source_index, place, active, count));
                        },
                        None => {},
                    }
                },
                None => {},
            }
        }
        return (None, None);
    }
    if escape {
        return (None, None);
    }
    (Some(drag), None)
}

} // verus!
