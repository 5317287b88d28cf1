//! The lujvo builder's pane of the web dictionary: adding, moving, removing and
//! dragging its pieces. Each operation says whether the pane changed, so that the
//! caller stores it again.

use crate::text::{trim, trim_spec};
use crate::web_view::{VlackuJvozbaItem, VlackuJvozbaItemKind, VlackuJvozbaMode};
use vstd::prelude::*;
use vstd::seq_lib::{to_multiset_insert, to_multiset_remove};

verus! {

/// The lujvo builder's pane: whether it is open, its mode and its pieces in order.
#[derive(Debug, Clone)]
pub struct VlackuJvozbaPaneState {
    pub open: bool,
    pub mode: VlackuJvozbaMode,
    pub items: Vec<VlackuJvozbaItem>,
}

/// A drag of a piece of the pane: where it started, where it would drop, the height of
/// its row and whether its preview shows.
#[derive(Debug, Clone, Copy, PartialEq, Eq, Structural)]
pub struct VlackuJvozbaDragState {
    pub start_index: usize,
    pub target_index: usize,
    pub item_height: usize,
    pub preview_visible: bool,
}

/// `after` is `before` with one more, open, piece at the end: of `kind`, with the
/// text `value`, not indented.
pub open spec fn appended(
    before: VlackuJvozbaPaneState,
    after: VlackuJvozbaPaneState,
    kind: VlackuJvozbaItemKind,
    value: Seq<char>,
) -> bool {
    &&& after.open
    &&& after.mode == before.mode
    &&& after.items@.len() == before.items@.len() + 1
    &&& after.items@.subrange(0, before.items@.len() as int) == before.items@
    &&& after.items@.last().kind == kind
    &&& after.items@.last().value@ == value
    &&& after.items@.last().indent_level == 0
}

/// Adds a word to the pane and opens it; a blank word is ignored.
pub fn add_vlacku_jvozba_word(pane: &mut VlackuJvozbaPaneState, value: &str) -> (changed: bool)
    ensures
        changed == (trim_spec(value@).len() > 0),
        !changed ==> *final(pane) == *old(pane),
        changed ==> appended(*old(pane), *final(pane), VlackuJvozbaItemKind::Word, trim_spec(value@)),
        changed ==> final(pane).items@.last().source is None,
{
    let trimmed = trim(value);
    if trimmed.as_str().is_empty() {
        return false;
    }
    pane.open = true;
    pane.items.push(
        VlackuJvozbaItem {
            kind: VlackuJvozbaItemKind::Word,
            value: trimmed,
            source: None,
            indent_level: 0,
        },
    );
    assert(pane.items@.subrange(0, old(pane).items@.len() as int) =~= old(pane).items@);
    true
}

/// Adds a fixed rafsi to the pane, with the word it came from (trimmed), and opens the
/// pane; a blank rafsi is ignored.
pub fn add_vlacku_jvozba_rafsi(
    pane: &mut VlackuJvozbaPaneState,
    value: &str,
    source: Option<&str>,
) -> (changed: bool)
    ensures
        changed == (trim_spec(value@).len() > 0),
        !changed ==> *final(pane) == *old(pane),
        changed ==> appended(
            *old(pane),
            *final(pane),
            VlackuJvozbaItemKind::FixedRafsi,
            trim_spec(value@),
        ),
        changed ==> match source {
            Some(s) => final(pane).items@.last().source matches Some(t) && t@ == trim_spec(s@),
            None => final(pane).items@.last().source is None,
        },
{
    let trimmed = trim(value);
    if trimmed.as_str().is_empty() {
        return false;
    }
    let source_text = match source {
        Some(s) => Some(trim(s)),
        None => None,
    };
    pane.open = true;
    pane.items.push(
        VlackuJvozbaItem {
            kind: VlackuJvozbaItemKind::FixedRafsi,
            value: trimmed,
            source: source_text,
            indent_level: 0,
        },
    );
    assert(pane.items@.subrange(0, old(pane).items@.len() as int) =~= old(pane).items@);
    true
}

/// The pieces with those at `i` and `j` exchanged.
pub open spec fn swapped<A>(items: Seq<A>, i: int, j: int) -> Seq<A> {
    items.update(i, items[j]).update(j, items[i])
}

/// The pieces after moving the one at `index` by `delta` places, exchanging it with
/// the piece there; `None` when either place lies outside the pane.
pub open spec fn moved_items<A>(items: Seq<A>, index: int, delta: int) -> Option<Seq<A>> {
    let target = index + delta;
    if 0 <= index < items.len() && 0 <= target < items.len() {
        Some(swapped(items, index, target))
    } else {
        None
    }
}

fn swap_items(items: &mut Vec<VlackuJvozbaItem>, i: usize, j: usize)
    requires
        i < j < old(items)@.len(),
    ensures
        final(items)@ == swapped(old(items)@, i as int, j as int),
{
    let ghost s = items@;
    let b = items.remove(j);
    items.insert(i, b);
    let a = items.remove(i + 1);
    items.insert(j, a);
    assert(items@ =~= swapped(s, i as int, j as int));
}

/// Moves the piece at `index` by `delta` places, exchanging it with the piece there;
/// nothing happens when either place lies outside the pane.
pub fn move_vlacku_jvozba_item(pane: &mut VlackuJvozbaPaneState, index: usize, delta: isize) -> (changed:
    bool)
    ensures
        match moved_items(old(pane).items@, index as int, delta as int) {
            Some(items) => changed && final(pane).items@ == items && final(pane).open == old(
                pane,
            ).open && final(pane).mode == old(pane).mode,
            None => !changed && *final(pane) == *old(pane),
        },
{
    let n = pane.items.len();
    let target = match index.checked_add_signed(delta) {
        Some(t) => t,
        None => {
            return false;
        },
    };
    if index < n && target < n {
        if index < target {
            swap_items(&mut pane.items, index, target);
        } else if target < index {
            swap_items(&mut pane.items, target, index);
            assert(pane.items@ =~= swapped(old(pane).items@, index as int, target as int));
        } else {
            assert(pane.items@ =~= swapped(old(pane).items@, index as int, target as int));
        }
        true
    } else {
        false
    }
}

/// Removes the piece at `index`; nothing happens when there is none.
pub fn remove_vlacku_jvozba_item(pane: &mut VlackuJvozbaPaneState, index: usize) -> (changed: bool)
    ensures
        changed == (index < old(pane).items@.len()),
        changed ==> final(pane).items@ == old(pane).items@.remove(index as int) && final(pane).open
            == old(pane).open && final(pane).mode == old(pane).mode,
        !changed ==> *final(pane) == *old(pane),
{
    if index < pane.items.len() {
        pane.items.remove(index);
        true
    } else {
        false
    }
}

/// A drag that starts on the piece at `index`; its row height is the measured one when
/// that is known and not zero, else 32.
pub fn start_vlacku_jvozba_drag(index: usize, measured_height: Option<usize>) -> (r:
    VlackuJvozbaDragState)
    ensures
        r.start_index == index,
        r.target_index == index,
        r.item_height == match measured_height {
            Some(h) => if h > 0 {
                h
            } else {
                32
            },
            None => 32,
        },
        r.preview_visible,
{
    let height = match measured_height {
        Some(h) => if h > 0 {
            h
        } else {
            32
        },
        None => 32,
    };
    VlackuJvozbaDragState {
        start_index: index,
        target_index: index,
        item_height: height,
        preview_visible: true,
    }
}

/// Points a running drag at `index`; without a drag nothing happens.
pub fn set_vlacku_jvozba_drag_target(drag: &mut Option<VlackuJvozbaDragState>, index: usize)
    ensures
        match *old(drag) {
            Some(d) => *final(drag) == Some(VlackuJvozbaDragState { target_index: index, ..d }),
            None => *final(drag) is None,
        },
{
    match drag {
        Some(d) => {
            d.target_index = index;
        },
        None => {},
    }
}

/// The pieces after dragging the one at `start` to `target`: it is taken out and put
/// back in at `target`.
pub open spec fn dragged<A>(items: Seq<A>, start: int, target: int) -> Seq<A> {
    items.remove(start).insert(target, items[start])
}

/// Drops a running drag: the piece moves from its start to its target when both lie in
/// the pane; the drag ends either way.
pub fn commit_vlacku_jvozba_drag(
    pane: &mut VlackuJvozbaPaneState,
    drag: &mut Option<VlackuJvozbaDragState>,
) -> (changed: bool)
    ensures
        match *old(drag) {
            Some(d) => {
                &&& *final(drag) is None
                &&& changed == (d.start_index < old(pane).items@.len() && d.target_index < old(
                    pane,
                ).items@.len())
                &&& changed ==> final(pane).items@ == dragged(
                    old(pane).items@,
                    d.start_index as int,
                    d.target_index as int,
                ) && final(pane).open == old(pane).open && final(pane).mode == old(pane).mode
                &&& !changed ==> *final(pane) == *old(pane)
            },
            None => !changed && *final(pane) == *old(pane) && *final(drag) is None,
        },
{
    let state = match *drag {
        Some(d) => d,
        None => {
            return false;
        },
    };
    *drag = None;
    if state.start_index < pane.items.len() && state.target_index < pane.items.len() {
        let item = pane.items.remove(state.start_index);
        pane.items.insert(state.target_index, item);
        true
    } else {
        false
    }
}

/// Ends a running drag: a drag that moved is dropped as by
/// `commit_vlacku_jvozba_drag`, one that ends where it started changes nothing.
pub fn finish_vlacku_jvozba_drag(
    pane: &mut VlackuJvozbaPaneState,
    drag: &mut Option<VlackuJvozbaDragState>,
) -> (changed: bool)
    ensures
        *final(drag) is None,
        match *old(drag) {
            Some(d) => if d.start_index != d.target_index && d.start_index < old(
                pane,
            ).items@.len() && d.target_index < old(pane).items@.len() {
                changed && final(pane).items@ == dragged(
                    old(pane).items@,
                    d.start_index as int,
                    d.target_index as int,
                ) && final(pane).open == old(pane).open && final(pane).mode == old(pane).mode
            } else {
                !changed && *final(pane) == *old(pane)
            },
            None => !changed && *final(pane) == *old(pane),
        },
{
    let state = match *drag {
        Some(d) => d,
        None => {
            return false;
        },
    };
    if state.start_index != state.target_index {
        commit_vlacku_jvozba_drag(pane, drag)
    } else {
        *drag = None;
        false
    }
}

/// Moving a piece and moving it back by the same number of places restores the pane.
pub proof fn law_move_back_restores<A>(items: Seq<A>, index: int, delta: int)
    requires
        moved_items(items, index, delta) is Some,
    ensures
        moved_items(moved_items(items, index, delta)->0, index + delta, -delta) == Some(items),
{
    let moved = moved_items(items, index, delta)->0;
    assert(swapped(moved, index + delta, index) =~= items);
}

/// Dragging a piece and dragging it back from where it landed restores the pane.
pub proof fn law_drag_back_restores<A>(items: Seq<A>, start: int, target: int)
    requires
        0 <= start < items.len(),
        0 <= target < items.len(),
    ensures
        dragged(dragged(items, start, target), target, start) == items,
{
    let d = dragged(items, start, target);
    assert(d[target] == items[start]);
    assert(d.remove(target) =~= items.remove(start));
    assert(items.remove(start).insert(start, items[start]) =~= items);
}

/// A drag only reorders the pieces: the pane holds the same pieces after it.
pub proof fn law_drag_keeps_the_pieces<A>(items: Seq<A>, start: int, target: int)
    requires
        0 <= start < items.len(),
        0 <= target < items.len(),
    ensures
        dragged(items, start, target).to_multiset() == items.to_multiset(),
        dragged(items, start, target).len() == items.len(),
{
    to_multiset_remove(items, start);
    to_multiset_insert(items.remove(start), target, items[start]);
    broadcast use vstd::multiset::group_multiset_axioms;

    assert(items.to_multiset().count(items[start]) > 0) by {
        vstd::seq_lib::to_multiset_contains(items, items[start]);
    }
    assert(items.to_multiset().remove(items[start]).insert(items[start]) =~= items.to_multiset());
}

} // verus!
