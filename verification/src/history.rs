//! Undo/redo history of the text buffer: whole-buffer snapshots kept on an
//! undo stack and a redo stack.

use crate::unicode::{byte_len, byte_offset, char_pos_for_byte, chars_of, is_boundary, char_pos_of_byte, str_byte_len};
use vstd::prelude::*;

verus! {

#[verifier::external_type_specification]
#[verifier::external_body]
pub struct ExInstant(std::time::Instant);

/// `std::time::Instant::now()`; nothing is promised of the value read.
#[verifier::external_body]
fn clock_now() -> std::time::Instant {
    std::time::Instant::now()
}

/// `Instant::saturating_duration_since` (zero when `earlier` is the later
/// one); nothing is promised of the duration.
#[verifier::external_body]
fn duration_between(later: &std::time::Instant, earlier: &std::time::Instant) -> std::time::Duration {
    later.saturating_duration_since(*earlier)
}

/// `Duration::as_millis`; nothing is promised of the count.
#[verifier::external_body]
fn duration_millis(d: &std::time::Duration) -> u128 {
    d.as_millis()
}

/// One saved state of the buffer: its characters, the cursor (as a
/// character position) and the selection anchor (as a byte offset).
#[derive(Debug, PartialEq, Eq)]
pub struct Snapshot {
    buf: Vec<char>,
    cursor: usize,
    selection_byte: Option<usize>,
}

impl View for Snapshot {
    type V = (Seq<char>, int, Option<usize>);

    closed spec fn view(&self) -> (Seq<char>, int, Option<usize>) {
        (self.buf@, self.cursor as int, self.selection_byte)
    }
}

impl Snapshot {
    /// A snapshot is usable when its cursor lies within its text and the
    /// text's byte length fits a `usize`.
    pub open spec fn wf(&self) -> bool {
        &&& 0 <= self@.1 <= self@.0.len()
        &&& byte_len(self@.0) <= usize::MAX
    }

    /// Byte offset of the saved cursor.
    pub open spec fn cursor_byte(&self) -> nat {
        byte_offset(self@.0, self@.1)
    }

    /// Snapshot of `buf` with the cursor at byte `cursor_byte` (which must
    /// start a character) and the given selection anchor.
    pub fn new(buf: &str, cursor_byte: usize, selection_byte: Option<usize>) -> (s: Self)
        requires
            is_boundary(buf@, cursor_byte as int),
        ensures
            s.wf(),
            s@.0 == buf@,
            s.cursor_byte() == cursor_byte,
            s@.2 == selection_byte,
    {
        let n = str_byte_len(buf);
        let chars = chars_of(buf);
        let k = char_pos_for_byte(&chars, cursor_byte);
        let k = match k {
            Some(k) => k,
            None => {
                assert(false);
                0
            },
        };
        Snapshot { buf: chars, cursor: k, selection_byte }
    }

    pub(crate) fn from_parts(buf: Vec<char>, cursor: usize, selection_byte: Option<usize>) -> (s:
        Self)
        ensures
            s@ == (buf@, cursor as int, selection_byte),
    {
        Snapshot { buf, cursor, selection_byte }
    }

    pub(crate) fn into_parts(self) -> (r: (Vec<char>, usize, Option<usize>))
        ensures
            r.0@ == self@.0,
            r.1 == self@.1,
            r.2 == self@.2,
    {
        (self.buf, self.cursor, self.selection_byte)
    }

    /// Whether two snapshots hold the same state.
    pub fn same_as(&self, other: &Snapshot) -> (r: bool)
        ensures
            r == (self@ == other@),
    {
        if self.cursor != other.cursor {
            return false;
        }
        match (self.selection_byte, other.selection_byte) {
            (Some(a), Some(b)) => {
                if a != b {
                    return false;
                }
            },
            (None, None) => {},
            _ => {
                return false;
            },
        }
        if self.buf.len() != other.buf.len() {
            return false;
        }
        let mut i: usize = 0;
        while i < self.buf.len()
            invariant
                self.buf.len() == other.buf.len(),
                i <= self.buf.len(),
                forall|j: int| 0 <= j < i ==> self.buf@[j] == other.buf@[j],
            decreases self.buf.len() - i,
        {
            if self.buf[i] != other.buf[i] {
                return false;
            }
            i = i + 1;
        }
        assert(self.buf@ =~= other.buf@);
        true
    }
}

/// Every snapshot of the sequence is usable.
pub open spec fn all_wf(s: Seq<Snapshot>) -> bool {
    forall|i: int| 0 <= i < s.len() ==> #[trigger] s[i].wf()
}

/// The observable content of a snapshot: text, cursor position, anchor byte.
pub type SnapView = (Seq<char>, int, Option<usize>);

/// The contents of a snapshot stack.
pub open spec fn views(s: Seq<Snapshot>) -> Seq<SnapView> {
    s.map_values(|x: Snapshot| x@)
}

/// The content of an optional snapshot.
pub open spec fn opt_view(o: Option<Snapshot>) -> Option<SnapView> {
    match o {
        Some(x) => Some(x@),
        None => None,
    }
}

/// The effect of an undo on the stacks: `current` goes onto the redo stack
/// and the newest undo entry comes back, skipping it when it equals
/// `current`. Returns the new undo stack, the new redo stack and the
/// state to restore. With the stacks swapped this is also a redo.
pub open spec fn undo_step(undos: Seq<SnapView>, redos: Seq<SnapView>, current: SnapView) -> (
    Seq<SnapView>,
    Seq<SnapView>,
    Option<SnapView>,
) {
    if undos.len() == 0 {
        (undos, redos, None)
    } else if undos.last() == current {
        let rest = undos.drop_last();
        if rest.len() == 0 {
            (rest, redos.push(current), None)
        } else {
            (rest.drop_last(), redos.push(current), Some(rest.last()))
        }
    } else {
        (undos.drop_last(), redos.push(current), Some(undos.last()))
    }
}

/// How close (milliseconds) a mergeable edit must follow the previous undo
/// step to be folded into it, unless changed.
pub const UNDO_MERGE_WINDOW_MS: u64 = 1000;

/// Whether a mergeable edit is folded into the previous undo step: when
/// it asks to be, merging is on (`window_ms > 0`), there is a step to fold
/// into, and the previous step was pushed less than the window ago.
pub open spec fn merge_applies(merge_with_recent: bool, window_ms: u64, undo_len: int, elapsed_ms: int) -> bool {
    merge_with_recent && window_ms > 0 && undo_len > 0 && elapsed_ms < window_ms
}

/// `merge_applies` on machine values.
pub fn merges(merge_with_recent: bool, window_ms: u64, undo_len: usize, elapsed_ms: u128) -> (b: bool)
    ensures
        b == merge_applies(merge_with_recent, window_ms, undo_len as int, elapsed_ms as int),
{
    merge_with_recent && window_ms > 0 && undo_len > 0 && elapsed_ms < window_ms as u128
}

/// What recording `snap`, `elapsed_ms` after the previous push, does to the
/// stacks: a snapshot equal to the newest undo entry changes nothing;
/// otherwise the redo stack empties and the undo stack stays as it was
/// when `merge_applies`, else gets the snapshot pushed.
pub open spec fn added_after(old: SnapshotManager, new: SnapshotManager, snap: SnapView, merge: bool, elapsed_ms: u128) -> bool {
    let u = views(old.undos@);
    let r = views(old.redos@);
    &&& new.merge_window_ms == old.merge_window_ms
    &&& if u.len() > 0 && u.last() == snap {
        views(new.undos@) == u && views(new.redos@) == r
    } else {
        &&& views(new.redos@).len() == 0
        &&& views(new.undos@) == if merge_applies(merge, old.merge_window_ms, u.len() as int, elapsed_ms as int) {
            u
        } else {
            u.push(snap)
        }
    }
}

/// Recording after a given time is one of the outcomes `recorded` allows.
pub proof fn lemma_added_after_recorded(old: SnapshotManager, new: SnapshotManager, snap: SnapView, merge: bool, elapsed_ms: u128)
    requires
        added_after(old, new, snap, merge, elapsed_ms),
    ensures
        recorded(old, new, snap, merge),
{
}

/// What `add_snapshot(snap, merge)` does to the stacks: a snapshot equal to
/// the newest undo entry changes nothing; otherwise the redo stack empties
/// and the snapshot is pushed, except that a mergeable edit may be folded
/// into the previous step while merging is on.
pub open spec fn recorded(old: SnapshotManager, new: SnapshotManager, snap: SnapView, merge: bool) -> bool {
    let u = views(old.undos@);
    let r = views(old.redos@);
    &&& new.merge_window_ms == old.merge_window_ms
    &&& if u.len() > 0 && u.last() == snap {
        views(new.undos@) == u && views(new.redos@) == r
    } else {
        &&& views(new.redos@).len() == 0
        &&& views(new.undos@) == u.push(snap) || (views(new.undos@) == u && merge
            && old.merge_window_ms > 0 && u.len() > 0)
        &&& !merge || old.merge_window_ms == 0 || u.len() == 0 ==> views(new.undos@) == u.push(snap)
    }
}

/// Undo and redo stacks of buffer snapshots.
pub struct SnapshotManager {
    /// States to go back to, the newest last.
    pub undos: Vec<Snapshot>,
    /// States to go forward to, the newest last.
    pub redos: Vec<Snapshot>,
    /// Window (milliseconds) within which a mergeable edit reuses the
    /// previous undo step; 0 turns merging off.
    pub merge_window_ms: u64,
    /// When the newest undo step was pushed.
    pub last_snapshot_time: std::time::Instant,
}

impl SnapshotManager {
    /// The stacks hold usable snapshots only.
    pub open spec fn wf(&self) -> bool {
        &&& all_wf(self.undos@)
        &&& all_wf(self.redos@)
    }

    /// Time window (milliseconds) within which a mergeable edit reuses the
    /// previous undo step; 0 turns merging off.
    pub open spec fn merge_window(&self) -> u64 {
        self.merge_window_ms
    }

    /// Empty history; mergeable edits made within
    /// `UNDO_MERGE_WINDOW_MS` of the previous undo step are merged into it.
    pub fn new() -> (m: Self)
        ensures
            m.wf(),
            m.undos@.len() == 0,
            m.redos@.len() == 0,
            m.merge_window() == UNDO_MERGE_WINDOW_MS,
    {
        SnapshotManager {
            undos: Vec::new(),
            redos: Vec::new(),
            merge_window_ms: UNDO_MERGE_WINDOW_MS,
            last_snapshot_time: clock_now(),
        }
    }

    /// Merge a mergeable edit into the previous undo step when it follows
    /// that step within `ms` milliseconds (0 turns merging off).
    pub fn set_merge_window_ms(&mut self, ms: u64)
        ensures
            final(self).undos@ == old(self).undos@,
            final(self).redos@ == old(self).redos@,
            final(self).merge_window() == ms,
    {
        self.merge_window_ms = ms;
    }

    /// Record `snapshot` as the state to return to on undo, the previous
    /// push having been `elapsed_ms` milliseconds before `now`. A snapshot
    /// equal to the newest undo entry changes nothing. Otherwise the redo
    /// stack is cleared, and the snapshot is folded into the previous step
    /// when `merges` says so, else pushed (and `now` becomes the time of the
    /// last push).
    pub fn add_snapshot_after(
        &mut self,
        snapshot: Snapshot,
        merge_with_recent: bool,
        elapsed_ms: u128,
        now: std::time::Instant,
    )
        requires
            old(self).wf(),
            snapshot.wf(),
        ensures
            final(self).wf(),
            added_after(*old(self), *final(self), snapshot@, merge_with_recent, elapsed_ms),
    {
        let n = self.undos.len();
        if n > 0 && self.undos[n - 1].same_as(&snapshot) {
            return;
        }
        if !merges(merge_with_recent, self.merge_window_ms, n, elapsed_ms) {
            self.last_snapshot_time = now;
            self.undos.push(snapshot);
        }
        self.redos.clear();
        proof {
            assert(all_wf(self.undos@));
            assert(views(old(self).undos@.push(snapshot)) =~= views(old(self).undos@).push(snapshot@));
            assert(views(self.redos@) =~= Seq::<SnapView>::empty());
        }
    }

    /// Record `snapshot` as the state to return to on undo (see
    /// `add_snapshot_after`), the time since the previous push read from the
    /// clock.
    pub fn add_snapshot(&mut self, snapshot: Snapshot, merge_with_recent: bool)
        requires
            old(self).wf(),
            snapshot.wf(),
        ensures
            final(self).wf(),
            exists|elapsed_ms: u128| added_after(*old(self), *final(self), snapshot@, merge_with_recent, elapsed_ms),
            recorded(*old(self), *final(self), snapshot@, merge_with_recent),
    {
        let now = clock_now();
        let since = duration_between(&now, &self.last_snapshot_time);
        let ms = duration_millis(&since);
        self.add_snapshot_after(snapshot, merge_with_recent, ms, now);
        proof {
            lemma_added_after_recorded(*old(self), *self, snapshot@, merge_with_recent, ms);
        }
    }

    /// Step back: push `current` onto the redo stack and return the snapshot
    /// to restore, as `undo_step` describes.
    pub fn prev_snapshot(&mut self, current: Snapshot) -> (r: Option<Snapshot>)
        requires
            old(self).wf(),
            current.wf(),
        ensures
            final(self).wf(),
            r matches Some(x) ==> x.wf(),
            final(self).merge_window() == old(self).merge_window(),
            (views(final(self).undos@), views(final(self).redos@), opt_view(r)) == undo_step(
                views(old(self).undos@),
                views(old(self).redos@),
                current@,
            ),
    {
        if self.undos.len() == 0 {
            return None;
        }
        self.redos.push(current);
        let snapshot = self.undos.pop().unwrap();
        let n = self.redos.len();
        if snapshot.same_as(&self.redos[n - 1]) {
            let r = self.undos.pop();
            proof {
                assert(views(old(self).undos@).drop_last() =~= views(old(self).undos@.drop_last()));
                if old(self).undos@.len() >= 2 {
                    assert(views(old(self).undos@).drop_last().drop_last() =~= views(self.undos@));
                } else {
                    assert(views(self.undos@) =~= Seq::<SnapView>::empty());
                }
                assert(views(self.redos@) =~= views(old(self).redos@).push(current@));
            }
            r
        } else {
            proof {
                assert(views(old(self).undos@).drop_last() =~= views(self.undos@));
                assert(views(self.redos@) =~= views(old(self).redos@).push(current@));
            }
            Some(snapshot)
        }
    }

    /// Step forward: push `current` onto the undo stack and return the
    /// snapshot to restore, as `undo_step` describes with the stacks swapped.
    pub fn next_snapshot(&mut self, current: Snapshot) -> (r: Option<Snapshot>)
        requires
            old(self).wf(),
            current.wf(),
        ensures
            final(self).wf(),
            r matches Some(x) ==> x.wf(),
            final(self).merge_window() == old(self).merge_window(),
            (views(final(self).redos@), views(final(self).undos@), opt_view(r)) == undo_step(
                views(old(self).redos@),
                views(old(self).undos@),
                current@,
            ),
    {
        if self.redos.len() == 0 {
            return None;
        }
        self.undos.push(current);
        let snapshot = self.redos.pop().unwrap();
        let n = self.undos.len();
        if snapshot.same_as(&self.undos[n - 1]) {
            let r = self.redos.pop();
            proof {
                assert(views(old(self).redos@).drop_last() =~= views(old(self).redos@.drop_last()));
                if old(self).redos@.len() >= 2 {
                    assert(views(old(self).redos@).drop_last().drop_last() =~= views(self.redos@));
                } else {
                    assert(views(self.redos@) =~= Seq::<SnapView>::empty());
                }
                assert(views(self.undos@) =~= views(old(self).undos@).push(current@));
            }
            r
        } else {
            proof {
                assert(views(old(self).redos@).drop_last() =~= views(self.redos@));
                assert(views(self.undos@) =~= views(old(self).undos@).push(current@));
            }
            Some(snapshot)
        }
    }
}

/// Undoing right after an edit brings back the state from before the edit,
/// when the edit changed the state and was recorded as an undo step of its
/// own (not merged into the previous one).
pub proof fn law_undo_reverts_edit(
    h0: SnapshotManager,
    h1: SnapshotManager,
    before: SnapView,
    after: SnapView,
    merge: bool,
)
    requires
        recorded(h0, h1, before, merge),
        !merge || h0.merge_window() == 0,
        after != before,
    ensures
        undo_step(views(h1.undos@), views(h1.redos@), after).2 == Some(before),
{
}

/// Redoing right after an undo that changed the state brings back the
/// state from before the undo; with the stacks swapped, the same holds of
/// undoing right after a redo.
pub proof fn law_redo_reverts_undo(undos: Seq<SnapView>, redos: Seq<SnapView>, current: SnapView)
    requires
        undo_step(undos, redos, current).2 matches Some(x) && x != current,
    ensures
        ({
            let st = undo_step(undos, redos, current);
            undo_step(st.1, st.0, st.2.unwrap()).2 == Some(current)
        }),
{
    let st = undo_step(undos, redos, current);
    assert(st.1.last() == current);
}

/// An edit recorded as a new undo step empties the redo stack, so a redo
/// right after it changes nothing.
pub proof fn law_edit_clears_redo(h0: SnapshotManager, h1: SnapshotManager, before: SnapView, merge: bool, current: SnapView)
    requires
        recorded(h0, h1, before, merge),
        !(views(h0.undos@).len() > 0 && views(h0.undos@).last() == before),
    ensures
        views(h1.redos@).len() == 0,
        undo_step(views(h1.redos@), views(h1.undos@), current).2 is None,
{
}

} // verus!
