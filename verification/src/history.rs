//! The annotation history of one monitor: its strokes, the undo and redo
//! stacks, and the replay recording used for GIF export.
use vstd::prelude::*;
use crate::model::{stroke_shape_ok, Point, Stroke, StrokeView, stroke_duration};

verus! {

// ---------------------------------------------------------------------------
// Time, for the replay recording

#[verifier::external_type_specification]
#[verifier::external_body]
pub struct ExInstant(std::time::Instant);

/// Calls `Instant::now`. The result is the clock's current reading; nothing
/// is stated of it.
#[verifier::external_body]
fn instant_now() -> std::time::Instant {
    std::time::Instant::now()
}

/// Calls `Instant::checked_sub` with a duration of `ms` milliseconds: the
/// instant that long before `t`, or `None` where the clock cannot represent
/// it. Nothing is stated of the result.
#[verifier::external_body]
fn instant_minus_millis(t: &std::time::Instant, ms: u64) -> Option<std::time::Instant> {
    t.checked_sub(std::time::Duration::from_millis(ms))
}

/// Calls `Instant::duration_since` and returns the whole milliseconds from
/// `start` to `now` (zero when `now` is earlier). Nothing is stated of the
/// result, which depends on the clock.
#[verifier::external_body]
fn millis_between(start: &std::time::Instant, now: &std::time::Instant) -> u128 {
    now.duration_since(*start).as_millis()
}

// ---------------------------------------------------------------------------
// Edits and their effect on a sequence of strokes

/// A change that can be undone.
#[derive(Clone, Debug)]
pub enum Edit {
    /// A stroke was appended.
    Added(Stroke),
    /// The stroke at `index` was replaced (moved or resized).
    Moved { index: usize, before: Stroke, after: Stroke },
    /// Strokes were erased; each item is the stroke's position before the
    /// erase, in increasing order.
    Removed(Vec<(usize, Stroke)>),
}

/// The mathematical value of an `Edit`.
pub enum EditView {
    Added(StrokeView),
    Moved { index: usize, before: StrokeView, after: StrokeView },
    Removed(Seq<(usize, StrokeView)>),
}

/// An event of the replay recording. `at` and `duration` are milliseconds
/// since the recording started.
#[derive(Clone, Debug)]
pub enum Recorded {
    Fade { at: u64, stroke: Stroke, life: u64 },
    Draw { at: u64, stroke: Stroke },
    Replace { at: u64, strokes: Vec<Stroke> },
    Move { at: u64, duration: u64, index: usize, before: Stroke, after: Stroke },
}

/// The mathematical value of a `Recorded` event.
pub enum RecordedView {
    Fade { at: u64, stroke: StrokeView, life: u64 },
    Draw { at: u64, stroke: StrokeView },
    Replace { at: u64, strokes: Seq<StrokeView> },
    Move { at: u64, duration: u64, index: usize, before: StrokeView, after: StrokeView },
}

pub open spec fn strokes_view(v: Seq<Stroke>) -> Seq<StrokeView> {
    v.map_values(|s: Stroke| s@)
}

pub open spec fn items_view(v: Seq<(usize, Stroke)>) -> Seq<(usize, StrokeView)> {
    v.map_values(|e: (usize, Stroke)| (e.0, e.1@))
}

pub open spec fn edit_view(e: Edit) -> EditView {
    match e {
        Edit::Added(s) => EditView::Added(s@),
        Edit::Moved { index, before, after } => EditView::Moved {
            index,
            before: before@,
            after: after@,
        },
        Edit::Removed(items) => EditView::Removed(items_view(items@)),
    }
}

pub open spec fn edits_view(v: Seq<Edit>) -> Seq<EditView> {
    v.map_values(|e: Edit| edit_view(e))
}

pub open spec fn recorded_view(r: Recorded) -> RecordedView {
    match r {
        Recorded::Fade { at, stroke, life } => RecordedView::Fade { at, stroke: stroke@, life },
        Recorded::Draw { at, stroke } => RecordedView::Draw { at, stroke: stroke@ },
        Recorded::Replace { at, strokes } => RecordedView::Replace {
            at,
            strokes: strokes_view(strokes@),
        },
        Recorded::Move { at, duration, index, before, after } => RecordedView::Move {
            at,
            duration,
            index,
            before: before@,
            after: after@,
        },
    }
}

pub open spec fn recording_view(v: Seq<Recorded>) -> Seq<RecordedView> {
    v.map_values(|r: Recorded| recorded_view(r))
}

/// Item positions strictly increase.
pub open spec fn increasing<T>(items: Seq<(usize, T)>) -> bool {
    forall|a: int, b: int| 0 <= a < b < items.len() ==> items[a].0 < items[b].0
}

/// Inserts the items in order, each at its position.
pub open spec fn insert_all<T>(s: Seq<T>, items: Seq<(usize, T)>) -> Seq<T>
    decreases items.len(),
{
    if items.len() == 0 {
        s
    } else {
        insert_all(s, items.drop_last()).insert(items.last().0 as int, items.last().1)
    }
}

/// Removes the items' positions, the last item first.
pub open spec fn remove_all<T>(s: Seq<T>, items: Seq<(usize, T)>) -> Seq<T>
    decreases items.len(),
{
    if items.len() == 0 {
        s
    } else {
        remove_all(s.remove(items.last().0 as int), items.drop_last())
    }
}

/// Every insertion of `insert_all` lands within the sequence.
pub open spec fn insert_safe<T>(s: Seq<T>, items: Seq<(usize, T)>) -> bool {
    forall|k: int| 0 <= k < items.len() ==> (#[trigger] items[k]).0 <= s.len() + k
}

/// Every removal of `remove_all` is of an existing position.
pub open spec fn remove_safe<T>(s: Seq<T>, items: Seq<(usize, T)>) -> bool {
    forall|k: int| 0 <= k < items.len() ==> (#[trigger] items[k]).0 + (items.len() - 1 - k) < s.len()
}

/// Undoing `e` on strokes `s` cannot fail.
pub open spec fn undo_safe(s: Seq<StrokeView>, e: EditView) -> bool {
    match e {
        EditView::Added(_) => true,
        EditView::Moved { index, .. } => index < s.len(),
        EditView::Removed(items) => insert_safe(s, items),
    }
}

/// Redoing `e` on strokes `s` cannot fail.
pub open spec fn redo_safe(s: Seq<StrokeView>, e: EditView) -> bool {
    match e {
        EditView::Added(_) => true,
        EditView::Moved { index, .. } => index < s.len(),
        EditView::Removed(items) => remove_safe(s, items),
    }
}

/// The strokes after undoing `e`.
pub open spec fn undo_apply(s: Seq<StrokeView>, e: EditView) -> Seq<StrokeView> {
    match e {
        EditView::Added(_) => if s.len() > 0 {
            s.drop_last()
        } else {
            s
        },
        EditView::Moved { index, before, .. } => s.update(index as int, before),
        EditView::Removed(items) => insert_all(s, items),
    }
}

/// The strokes after redoing `e`.
pub open spec fn redo_apply(s: Seq<StrokeView>, e: EditView) -> Seq<StrokeView> {
    match e {
        EditView::Added(x) => s.push(x),
        EditView::Moved { index, after, .. } => s.update(index as int, after),
        EditView::Removed(items) => remove_all(s, items),
    }
}

/// `e` is the edit that led to strokes `s`.
pub open spec fn undo_consistent(s: Seq<StrokeView>, e: EditView) -> bool {
    match e {
        EditView::Added(x) => s.len() > 0 && s.last() == x,
        EditView::Moved { index, after, .. } => index < s.len() && s[index as int] == after,
        EditView::Removed(items) => {
            &&& items.len() > 0
            &&& increasing(items)
            &&& items.last().0 < s.len() + items.len()
        },
    }
}

/// `e` can be redone from strokes `s`, and it finds what it expects there.
pub open spec fn redo_consistent(s: Seq<StrokeView>, e: EditView) -> bool {
    match e {
        EditView::Added(_) => true,
        EditView::Moved { index, before, .. } => index < s.len() && s[index as int] == before,
        EditView::Removed(items) => {
            &&& items.len() > 0
            &&& increasing(items)
            &&& items.last().0 < s.len()
            &&& forall|k: int| 0 <= k < items.len() ==> s[(#[trigger] items[k]).0 as int] == items[k].1
        },
    }
}

/// Undoing the stack from the top, each edit is consistent with the strokes
/// it meets.
pub open spec fn undo_chain(s: Seq<StrokeView>, edits: Seq<EditView>) -> bool
    decreases edits.len(),
{
    edits.len() == 0 || (undo_consistent(s, edits.last()) && undo_chain(
        undo_apply(s, edits.last()),
        edits.drop_last(),
    ))
}

/// Redoing the stack from the top, each edit is consistent with the strokes
/// it meets.
pub open spec fn redo_chain(s: Seq<StrokeView>, edits: Seq<EditView>) -> bool
    decreases edits.len(),
{
    edits.len() == 0 || (redo_consistent(s, edits.last()) && redo_chain(
        redo_apply(s, edits.last()),
        edits.drop_last(),
    ))
}

/// The strokes and the two stacks of a history.
pub struct Timeline {
    pub strokes: Seq<StrokeView>,
    pub undo: Seq<EditView>,
    pub redo: Seq<EditView>,
}

/// Both stacks can be walked to the end from the current strokes.
pub open spec fn well_formed(t: Timeline) -> bool {
    undo_chain(t.strokes, t.undo) && redo_chain(t.strokes, t.redo)
}

/// Undo: the top edit is reverted and moves to the redo stack.
pub open spec fn undo_step(t: Timeline) -> Timeline {
    if t.undo.len() == 0 {
        t
    } else {
        Timeline {
            strokes: undo_apply(t.strokes, t.undo.last()),
            undo: t.undo.drop_last(),
            redo: t.redo.push(t.undo.last()),
        }
    }
}

/// Redo: the top redo edit is applied again and moves to the undo stack.
pub open spec fn redo_step(t: Timeline) -> Timeline {
    if t.redo.len() == 0 {
        t
    } else {
        Timeline {
            strokes: redo_apply(t.strokes, t.redo.last()),
            undo: t.undo.push(t.redo.last()),
            redo: t.redo.drop_last(),
        }
    }
}

/// A new stroke: appended, undoable, and the redo stack is discarded.
pub open spec fn push_step(t: Timeline, x: StrokeView) -> Timeline {
    Timeline { strokes: t.strokes.push(x), undo: t.undo.push(EditView::Added(x)), redo: seq![] }
}

/// Replacing the stroke at `index`: undoable, and the redo stack is discarded.
pub open spec fn move_step(t: Timeline, index: int, after: StrokeView) -> Timeline {
    Timeline {
        strokes: t.strokes.update(index, after),
        undo: t.undo.push(EditView::Moved { index: index as usize, before: t.strokes[index], after }),
        redo: seq![],
    }
}

/// The strokes among the first `n` whose hit flag is set, with their positions.
pub open spec fn hit_items(s: Seq<StrokeView>, hits: Seq<bool>, n: nat) -> Seq<(usize, StrokeView)>
    decreases n,
{
    if n == 0 {
        seq![]
    } else {
        let prev = hit_items(s, hits, (n - 1) as nat);
        if hits[n - 1] {
            prev.push(((n - 1) as usize, s[n - 1]))
        } else {
            prev
        }
    }
}

/// The strokes whose hit flag is not set, in their order.
pub open spec fn kept(s: Seq<StrokeView>, hits: Seq<bool>, n: nat) -> Seq<StrokeView>
    decreases n,
{
    if n == 0 {
        seq![]
    } else {
        let prev = kept(s, hits, (n - 1) as nat);
        if hits[n - 1] {
            prev
        } else {
            prev.push(s[n - 1])
        }
    }
}

/// An erase gesture: the hit strokes are removed as one undoable edit; when
/// nothing is hit nothing changes.
pub open spec fn erase_step(t: Timeline, hits: Seq<bool>) -> Timeline {
    let items = hit_items(t.strokes, hits, t.strokes.len());
    if items.len() == 0 {
        t
    } else {
        Timeline {
            strokes: remove_all(t.strokes, items),
            undo: t.undo.push(EditView::Removed(items)),
            redo: seq![],
        }
    }
}

// ---------------------------------------------------------------------------
// Lemmas on positions

proof fn lemma_gap<T>(items: Seq<(usize, T)>, a: int, b: int)
    requires
        increasing(items),
        0 <= a <= b < items.len(),
    ensures
        items[b].0 - items[a].0 >= b - a,
    decreases b - a,
{
    if a < b {
        lemma_gap(items, a, b - 1);
    }
}

/// Inserting consistent items and removing them again restores the sequence;
/// after the insertion each item stands at its position.
proof fn lemma_insert_then_remove<T>(s: Seq<T>, items: Seq<(usize, T)>)
    requires
        increasing(items),
        items.len() > 0 ==> items.last().0 < s.len() + items.len(),
    ensures
        insert_safe(s, items),
        insert_all(s, items).len() == s.len() + items.len(),
        forall|k: int|
            0 <= k < items.len() ==> insert_all(s, items)[(#[trigger] items[k]).0 as int]
                == items[k].1,
        remove_all(insert_all(s, items), items) == s,
    decreases items.len(),
{
    if items.len() > 0 {
        let m = items.len();
        let pre = items.drop_last();
        let last = items.last();
        if m > 1 {
            assert(pre.last() == items[m - 2]);
            assert(items[m - 2].0 < last.0);
        }
        lemma_insert_then_remove(s, pre);
        let t = insert_all(s, pre);
        let t2 = t.insert(last.0 as int, last.1);
        assert(insert_all(s, items) == t2);
        assert forall|k: int| 0 <= k < items.len() implies (#[trigger] items[k]).0 <= s.len() + k by {
            lemma_gap(items, k, m - 1);
        }
        assert forall|k: int|
            0 <= k < items.len() implies t2[(#[trigger] items[k]).0 as int] == items[k].1 by {
            if k < m - 1 {
                assert(items[k] == pre[k]);
                assert(items[k].0 < last.0);
            }
        }
        assert(t2.remove(last.0 as int) =~= t);
        assert(remove_all(t2, items) == remove_all(t2.remove(last.0 as int), pre));
    }
}

/// Removing consistent items and inserting them again restores the sequence.
proof fn lemma_remove_then_insert<T>(s: Seq<T>, items: Seq<(usize, T)>)
    requires
        increasing(items),
        items.len() > 0 ==> items.last().0 < s.len(),
        forall|k: int| 0 <= k < items.len() ==> s[(#[trigger] items[k]).0 as int] == items[k].1,
    ensures
        remove_safe(s, items),
        remove_all(s, items).len() == s.len() - items.len(),
        insert_all(remove_all(s, items), items) == s,
    decreases items.len(),
{
    if items.len() > 0 {
        let m = items.len();
        let pre = items.drop_last();
        let last = items.last();
        let s1 = s.remove(last.0 as int);
        assert forall|k: int| 0 <= k < pre.len() implies s1[(#[trigger] pre[k]).0 as int]
            == pre[k].1 by {
            assert(pre[k] == items[k]);
            assert(items[k].0 < last.0);
        }
        if m > 1 {
            assert(pre.last() == items[m - 2]);
            assert(items[m - 2].0 < last.0);
        }
        lemma_remove_then_insert(s1, pre);
        assert(remove_all(s, items) == remove_all(s1, pre));
        assert(s1.insert(last.0 as int, last.1) =~= s);
        assert forall|k: int| 0 <= k < items.len() implies (#[trigger] items[k]).0 + (items.len() - 1
            - k) < s.len() by {
            lemma_gap(items, k, m - 1);
        }
    }
}

// ---------------------------------------------------------------------------
// Laws of undo and redo on single edits

proof fn lemma_undo_edit(s: Seq<StrokeView>, e: EditView)
    requires
        undo_consistent(s, e),
    ensures
        undo_safe(s, e),
        redo_consistent(undo_apply(s, e), e),
        redo_apply(undo_apply(s, e), e) == s,
{
    match e {
        EditView::Added(x) => {
            assert(s.drop_last().push(x) =~= s);
        },
        EditView::Moved { index, before, after } => {
            assert(s.update(index as int, before).update(index as int, after) =~= s);
        },
        EditView::Removed(items) => {
            lemma_insert_then_remove(s, items);
        },
    }
}

proof fn lemma_redo_edit(s: Seq<StrokeView>, e: EditView)
    requires
        redo_consistent(s, e),
    ensures
        redo_safe(s, e),
        undo_consistent(redo_apply(s, e), e),
        undo_apply(redo_apply(s, e), e) == s,
{
    match e {
        EditView::Added(x) => {
            assert(s.push(x).drop_last() =~= s);
        },
        EditView::Moved { index, before, after } => {
            assert(s.update(index as int, after).update(index as int, before) =~= s);
        },
        EditView::Removed(items) => {
            lemma_remove_then_insert(s, items);
        },
    }
}

/// Undo can always be carried out on a well-formed history, keeps it well
/// formed, and a redo right after it restores the strokes and both stacks.
pub proof fn lemma_undo_then_redo(t: Timeline)
    requires
        well_formed(t),
        t.undo.len() > 0,
    ensures
        undo_safe(t.strokes, t.undo.last()),
        well_formed(undo_step(t)),
        redo_step(undo_step(t)) == t,
{
    let e = t.undo.last();
    lemma_undo_edit(t.strokes, e);
    let u = undo_step(t);
    assert(u.redo.last() == e);
    assert(u.redo.drop_last() =~= t.redo);
    assert(u.undo.push(e) =~= t.undo);
}

/// Redo can always be carried out on a well-formed history, keeps it well
/// formed, and an undo right after it restores the strokes and both stacks.
pub proof fn lemma_redo_then_undo(t: Timeline)
    requires
        well_formed(t),
        t.redo.len() > 0,
    ensures
        redo_safe(t.strokes, t.redo.last()),
        well_formed(redo_step(t)),
        undo_step(redo_step(t)) == t,
{
    let e = t.redo.last();
    lemma_redo_edit(t.strokes, e);
    let r = redo_step(t);
    assert(r.undo.last() == e);
    assert(r.undo.drop_last() =~= t.undo);
    assert(r.redo.push(e) =~= t.redo);
}

/// Drawing a stroke keeps the history well formed, empties the redo stack,
/// and undoing it restores the previous strokes.
pub proof fn lemma_push_then_undo(t: Timeline, x: StrokeView)
    requires
        well_formed(t),
    ensures
        well_formed(push_step(t, x)),
        undo_step(push_step(t, x)).strokes == t.strokes,
        undo_step(push_step(t, x)).undo == t.undo,
{
    let p = push_step(t, x);
    assert(p.undo.last() == EditView::Added(x));
    assert(p.strokes.drop_last() =~= t.strokes);
    assert(p.undo.drop_last() =~= t.undo);
}

/// Replacing a stroke keeps the history well formed, and undoing it restores
/// the previous strokes.
pub proof fn lemma_move_then_undo(t: Timeline, index: int, after: StrokeView)
    requires
        well_formed(t),
        0 <= index < t.strokes.len(),
        t.strokes.len() <= usize::MAX,
    ensures
        well_formed(move_step(t, index, after)),
        undo_step(move_step(t, index, after)).strokes == t.strokes,
        undo_step(move_step(t, index, after)).undo == t.undo,
{
    let p = move_step(t, index, after);
    assert(p.strokes.update(index, t.strokes[index]) =~= t.strokes);
    assert(p.undo.drop_last() =~= t.undo);
}

/// The hit items are the hit positions in increasing order, each with the
/// stroke found there.
proof fn lemma_hit_items(s: Seq<StrokeView>, hits: Seq<bool>, n: nat)
    requires
        n <= s.len(),
        n <= hits.len(),
        n <= usize::MAX,
    ensures
        increasing(hit_items(s, hits, n)),
        forall|k: int|
            0 <= k < hit_items(s, hits, n).len() ==> (#[trigger] hit_items(s, hits, n)[k]).0 < n
                && s[hit_items(s, hits, n)[k].0 as int] == hit_items(s, hits, n)[k].1 && hits[hit_items(s, hits, n)[k].0 as int],
        hit_items(s, hits, n).len() <= n,
    decreases n,
{
    if n > 0 {
        lemma_hit_items(s, hits, (n - 1) as nat);
    }
}

/// Erasing keeps the history well formed and removes exactly the hit
/// strokes; when something was hit, undoing the erase restores the strokes
/// in their original order.
pub proof fn lemma_erase_then_undo(t: Timeline, hits: Seq<bool>)
    requires
        well_formed(t),
        hits.len() == t.strokes.len(),
        t.strokes.len() <= usize::MAX,
    ensures
        well_formed(erase_step(t, hits)),
        erase_step(t, hits).strokes == kept(t.strokes, hits, t.strokes.len()),
        hit_items(t.strokes, hits, t.strokes.len()).len() > 0 ==> undo_step(
            erase_step(t, hits),
        ).strokes == t.strokes,
{
    let s = t.strokes;
    let items = hit_items(s, hits, s.len());
    lemma_hit_items(s, hits, s.len());
    lemma_kept(s, hits, s.len());
    if items.len() > 0 {
        lemma_remove_then_insert(s, items);
        let e = erase_step(t, hits);
        assert(e.undo.last() == EditView::Removed(items));
        assert(e.undo.drop_last() =~= t.undo);
    }
}

/// The strokes left after removing the hit items of the first `n` strokes are
/// the kept ones followed by the rest.
proof fn lemma_kept(s: Seq<StrokeView>, hits: Seq<bool>, n: nat)
    requires
        n <= s.len(),
        n <= hits.len(),
        n <= usize::MAX,
    ensures
        remove_all(s, hit_items(s, hits, n)) == kept(s, hits, n) + s.skip(n as int),
    decreases n,
{
    if n == 0 {
        assert(s.skip(0) =~= s);
        assert(Seq::<StrokeView>::empty() + s =~= s);
    } else {
        let m = (n - 1) as nat;
        lemma_kept(s, hits, m);
        lemma_hit_items(s, hits, m);
        let prev = hit_items(s, hits, m);
        if hits[m as int] {
            let x = (m as usize, s[m as int]);
            let s1 = s.remove(m as int);
            assert(hit_items(s, hits, n) == prev.push(x));
            assert(prev.push(x).drop_last() =~= prev);
            assert(prev.push(x).last() == x);
            assert(remove_all(s, hit_items(s, hits, n)) == remove_all(s1, prev));
            lemma_remove_all_split(s, prev, m);
            lemma_remove_all_split(s1, prev, m);
            assert(s1.take(m as int) =~= s.take(m as int));
            assert(s1.skip(m as int) =~= s.skip(n as int));
            let x1 = remove_all(s.take(m as int), prev);
            let k1 = kept(s, hits, m);
            // x1 + s.skip(m) == k1 + s.skip(m), so x1 == k1.
            assert(x1 + s.skip(m as int) == k1 + s.skip(m as int));
            assert((x1 + s.skip(m as int)).len() == (k1 + s.skip(m as int)).len());
            assert(x1.len() == k1.len());
            assert(x1 =~= (x1 + s.skip(m as int)).take(x1.len() as int));
            assert(k1 =~= (k1 + s.skip(m as int)).take(k1.len() as int));
            assert(kept(s, hits, n) == k1);
        } else {
            assert(hit_items(s, hits, n) == prev);
            assert(kept(s, hits, n) == kept(s, hits, m).push(s[m as int]));
            assert(s.skip(m as int) =~= seq![s[m as int]] + s.skip(n as int));
            assert(kept(s, hits, m) + s.skip(m as int) =~= kept(s, hits, m).push(s[m as int])
                + s.skip(n as int));
        }
    }
}

/// Removing positions below `m` only touches the first `m` elements.
proof fn lemma_remove_all_split(s: Seq<StrokeView>, items: Seq<(usize, StrokeView)>, m: nat)
    requires
        m <= s.len(),
        increasing(items),
        forall|k: int| 0 <= k < items.len() ==> (#[trigger] items[k]).0 < m,
    ensures
        items.len() <= m,
        remove_all(s, items) == remove_all(s.take(m as int), items) + s.skip(m as int),
        remove_all(s.take(m as int), items).len() == m - items.len(),
    decreases items.len(),
{
    if items.len() == 0 {
        assert(s =~= s.take(m as int) + s.skip(m as int));
    } else {
        let pre = items.drop_last();
        let l = items.last().0;
        lemma_gap(items, 0, items.len() - 1);
        let s1 = s.remove(l as int);
        assert forall|k: int| 0 <= k < pre.len() implies (#[trigger] pre[k]).0 < m - 1 by {
            assert(pre[k] == items[k]);
            assert(items[k].0 < l);
        }
        lemma_remove_all_split(s1, pre, (m - 1) as nat);
        let t = s.take(m as int);
        let t1 = t.remove(l as int);
        lemma_remove_all_split(t1, pre, (m - 1) as nat);
        assert(t1.take(m - 1) =~= s1.take(m - 1));
        assert(t1.skip(m - 1) =~= Seq::<StrokeView>::empty());
        assert(s1.skip(m - 1) =~= s.skip(m as int));
        assert(remove_all(t1, pre) + Seq::<StrokeView>::empty() =~= remove_all(t1, pre));
    }
}

// ---------------------------------------------------------------------------
// The history itself

/// The annotations of one monitor with their undo, redo and replay state.
pub struct History {
    pub strokes: Vec<Stroke>,
    pub undo: Vec<Edit>,
    pub redo: Vec<Edit>,
    pub recording: Vec<Recorded>,
    /// When the replay clock started; `None` until the first recorded event.
    pub started: Option<std::time::Instant>,
}

proof fn lemma_view_push(a: Seq<Stroke>, x: Stroke)
    ensures
        strokes_view(a.push(x)) == strokes_view(a).push(x@),
{
    assert(strokes_view(a.push(x)) =~= strokes_view(a).push(x@));
}

fn duplicate_all(v: &Vec<Stroke>) -> (r: Vec<Stroke>)
    ensures
        strokes_view(r@) == strokes_view(v@),
{
    let mut r: Vec<Stroke> = Vec::new();
    let mut i: usize = 0;
    while i < v.len()
        invariant
            i <= v.len(),
            strokes_view(r@) == strokes_view(v@.take(i as int)),
        decreases v.len() - i,
    {
        let d = v[i].duplicate();
        proof {
            lemma_view_push(r@, d);
            lemma_view_push(v@.take(i as int), v@[i as int]);
            assert(v@.take(i + 1) =~= v@.take(i as int).push(v@[i as int]));
        }
        r.push(d);
        i += 1;
    }
    assert(v@.take(v.len() as int) =~= v@);
    r
}

impl History {
    /// The strokes and the two stacks.
    pub open spec fn timeline(&self) -> Timeline {
        Timeline {
            strokes: strokes_view(self.strokes@),
            undo: edits_view(self.undo@),
            redo: edits_view(self.redo@),
        }
    }

    pub open spec fn recorded(&self) -> Seq<RecordedView> {
        recording_view(self.recording@)
    }

    pub open spec fn clock_started(&self) -> bool {
        self.started is Some
    }

    /// An empty history.
    pub fn new() -> (r: History)
        ensures
            r.strokes@.len() == 0,
            r.undo@.len() == 0,
            r.redo@.len() == 0,
            r.recording@.len() == 0,
            !r.clock_started(),
            well_formed(r.timeline()),
    {
        let r = History {
            strokes: Vec::new(),
            undo: Vec::new(),
            redo: Vec::new(),
            recording: Vec::new(),
            started: None,
        };
        assert(r.timeline().strokes =~= Seq::<StrokeView>::empty());
        assert(r.timeline().undo =~= Seq::<EditView>::empty());
        assert(r.timeline().redo =~= Seq::<EditView>::empty());
        r
    }

    /// Milliseconds on the replay clock. The first reading starts the clock
    /// `duration` ms in the past, so that the first event, which began that
    /// long ago, lands at 0.
    fn clock(&mut self, duration: u64) -> (at: u64)
        ensures
            final(self).strokes == old(self).strokes,
            final(self).undo == old(self).undo,
            final(self).redo == old(self).redo,
            final(self).recording == old(self).recording,
            final(self).clock_started(),
    {
        let now = instant_now();
        if self.started.is_none() {
            let start = match instant_minus_millis(&now, duration) {
                Some(t) => t,
                None => now,
            };
            self.started = Some(start);
        }
        let ms = match &self.started {
            Some(start) => millis_between(start, &now),
            None => 0,
        };
        ms as u64
    }

    fn record_state(&mut self)
        ensures
            final(self).strokes == old(self).strokes,
            final(self).undo == old(self).undo,
            final(self).redo == old(self).redo,
            final(self).recording@.len() == old(self).recording@.len() + 1,
            final(self).recording@.drop_last() == old(self).recording@,
            final(self).recorded().last() matches RecordedView::Replace { strokes, .. } && strokes
                == strokes_view(old(self).strokes@),
            final(self).clock_started(),
    {
        let at = self.clock(0);
        let strokes = duplicate_all(&self.strokes);
        self.recording.push(Recorded::Replace { at, strokes });
        assert(self.recording@.drop_last() =~= old(self).recording@);
    }

    /// Appends a newly drawn stroke: it becomes undoable, the redo stack is
    /// discarded, and the replay records it as drawn when it began.
    pub fn push(&mut self, stroke: Stroke)
        ensures
            final(self).timeline() == push_step(old(self).timeline(), stroke@),
            final(self).recording@.len() == old(self).recording@.len() + 1,
            final(self).recorded().drop_last() == old(self).recorded(),
            final(self).recorded().last() matches RecordedView::Draw { stroke: s, .. } && s
                == stroke@,
    {
        let duration = stroke.duration();
        let at = self.clock(duration).saturating_sub(duration);
        self.recording.push(Recorded::Draw { at, stroke: stroke.duplicate() });
        self.strokes.push(stroke.duplicate());
        self.undo.push(Edit::Added(stroke));
        self.redo.clear();
        assert(self.timeline().strokes =~= old(self).timeline().strokes.push(stroke@));
        assert(self.timeline().undo =~= old(self).timeline().undo.push(EditView::Added(stroke@)));
        assert(self.timeline().redo =~= Seq::<EditView>::empty());
        assert(self.recorded().drop_last() =~= old(self).recorded());
    }

    /// Records a fading stroke for the replay only; the strokes and both
    /// stacks are untouched.
    pub fn record_fade(&mut self, stroke: Stroke, life: u64)
        ensures
            final(self).strokes == old(self).strokes,
            final(self).undo == old(self).undo,
            final(self).redo == old(self).redo,
            final(self).recording@.len() == old(self).recording@.len() + 1,
            final(self).recorded().drop_last() == old(self).recorded(),
            final(self).recorded().last() matches RecordedView::Fade { stroke: s, life: l, .. } && s
                == stroke@ && l == life,
    {
        let duration = stroke.duration();
        let at = self.clock(duration).saturating_sub(duration);
        self.recording.push(Recorded::Fade { at, stroke, life });
        assert(self.recorded().drop_last() =~= old(self).recorded());
    }

    /// Replaces the stroke at `index` by `after` (a move or a resize): the
    /// change is undoable, the redo stack is discarded, and the replay
    /// records it as lasting `duration` ms.
    pub fn apply_move(&mut self, index: usize, after: Stroke, duration: u64)
        requires
            index < old(self).strokes@.len(),
        ensures
            final(self).timeline() == move_step(old(self).timeline(), index as int, after@),
            final(self).recording@.len() == old(self).recording@.len() + 1,
            final(self).recorded().drop_last() == old(self).recorded(),
            final(self).recorded().last() matches RecordedView::Move {
                duration: d,
                index: i,
                before: b,
                after: a,
                ..
            } && d == duration && i == index && b == old(self).strokes@[index as int]@ && a
                == after@,
    {
        let before = self.strokes[index].duplicate();
        let before_copy = before.duplicate();
        let after_copy = after.duplicate();
        self.strokes.set(index, after.duplicate());
        self.undo.push(Edit::Moved { index, before, after });
        self.redo.clear();
        let at = self.clock(duration).saturating_sub(duration);
        self.recording.push(
            Recorded::Move { at, duration, index, before: before_copy, after: after_copy },
        );
        assert(self.timeline().strokes =~= old(self).timeline().strokes.update(
            index as int,
            after@,
        ));
        assert(self.timeline().undo =~= old(self).timeline().undo.push(
            EditView::Moved { index, before: old(self).timeline().strokes[index as int], after: after@ },
        ));
        assert(self.timeline().redo =~= Seq::<EditView>::empty());
        assert(self.recorded().drop_last() =~= old(self).recorded());
    }

    /// Undoes the latest edit, if any, and records the resulting strokes for
    /// the replay.
    pub fn undo(&mut self)
        requires
            old(self).undo@.len() > 0 ==> undo_safe(
                old(self).timeline().strokes,
                old(self).timeline().undo.last(),
            ),
        ensures
            final(self).timeline() == undo_step(old(self).timeline()),
            old(self).undo@.len() == 0 ==> final(self).recording == old(self).recording,
            old(self).undo@.len() > 0 ==> {
                &&& final(self).recording@.len() == old(self).recording@.len() + 1
                &&& final(self).recorded().drop_last() == old(self).recorded()
                &&& final(self).recorded().last() matches RecordedView::Replace { strokes, .. }
                    && strokes == final(self).timeline().strokes
            },
    {
        if self.undo.len() == 0 {
            return;
        }
        let ghost t0 = self.timeline();
        let edit = self.undo.pop().unwrap();
        assert(edit_view(edit) == t0.undo.last());
        match &edit {
            Edit::Moved { index, before, .. } => {
                self.strokes.set(*index, before.duplicate());
                assert(strokes_view(self.strokes@) =~= undo_apply(t0.strokes, edit_view(edit)));
            },
            Edit::Added(_) => {
                self.strokes.pop();
                assert(strokes_view(self.strokes@) =~= undo_apply(t0.strokes, edit_view(edit)));
            },
            Edit::Removed(items) => {
                let ghost iv = items_view(items@);
                let ghost undo_now = self.undo@;
                let mut k: usize = 0;
                while k < items.len()
                    invariant
                        k <= items.len(),
                        iv == items_view(items@),
                        insert_safe(t0.strokes, iv),
                        self.undo@ == undo_now,
                        self.redo@ == old(self).redo@,
                        self.recording@ == old(self).recording@,
                        strokes_view(self.strokes@) == insert_all(t0.strokes, iv.take(k as int)),
                        strokes_view(self.strokes@).len() == t0.strokes.len() + k,
                    decreases items.len() - k,
                {
                    let index = items[k].0;
                    assert(iv[k as int].0 == index);
                    assert(index <= t0.strokes.len() + k);
                    let ghost before = self.strokes@;
                    self.strokes.insert(index, items[k].1.duplicate());
                    assert(iv.take(k + 1).drop_last() =~= iv.take(k as int));
                    assert(iv.take(k + 1).last() == iv[k as int]);
                    assert(strokes_view(self.strokes@) =~= strokes_view(before).insert(
                        index as int,
                        iv[k as int].1,
                    ));
                    k += 1;
                }
                assert(iv.take(items.len() as int) =~= iv);
            },
        }
        self.redo.push(edit);
        assert(self.timeline().undo =~= t0.undo.drop_last());
        assert(self.timeline().redo =~= t0.redo.push(t0.undo.last()));
        self.record_state();
        assert(self.recorded().drop_last() =~= old(self).recorded());
    }

    /// Redoes the latest undone edit, if any, and records the resulting
    /// strokes for the replay.
    pub fn redo(&mut self)
        requires
            old(self).redo@.len() > 0 ==> redo_safe(
                old(self).timeline().strokes,
                old(self).timeline().redo.last(),
            ),
        ensures
            final(self).timeline() == redo_step(old(self).timeline()),
            old(self).redo@.len() == 0 ==> final(self).recording == old(self).recording,
            old(self).redo@.len() > 0 ==> {
                &&& final(self).recording@.len() == old(self).recording@.len() + 1
                &&& final(self).recorded().drop_last() == old(self).recorded()
                &&& final(self).recorded().last() matches RecordedView::Replace { strokes, .. }
                    && strokes == final(self).timeline().strokes
            },
    {
        if self.redo.len() == 0 {
            return;
        }
        let ghost t0 = self.timeline();
        let edit = self.redo.pop().unwrap();
        assert(edit_view(edit) == t0.redo.last());
        match &edit {
            Edit::Moved { index, after, .. } => {
                self.strokes.set(*index, after.duplicate());
                assert(strokes_view(self.strokes@) =~= redo_apply(t0.strokes, edit_view(edit)));
            },
            Edit::Added(stroke) => {
                self.strokes.push(stroke.duplicate());
                assert(strokes_view(self.strokes@) =~= redo_apply(t0.strokes, edit_view(edit)));
            },
            Edit::Removed(items) => {
                let ghost iv = items_view(items@);
                let ghost redo_now = self.redo@;
                assert(iv.take(items.len() as int) =~= iv);
                let mut k: usize = items.len();
                while k > 0
                    invariant
                        k <= items.len(),
                        iv == items_view(items@),
                        remove_safe(t0.strokes, iv),
                        self.redo@ == redo_now,
                        self.undo@ == old(self).undo@,
                        self.recording@ == old(self).recording@,
                        remove_all(t0.strokes, iv) == remove_all(
                            strokes_view(self.strokes@),
                            iv.take(k as int),
                        ),
                        strokes_view(self.strokes@).len() == t0.strokes.len() - (items.len() - k),
                    decreases k,
                {
                    let ghost before = self.strokes@;
                    k -= 1;
                    let index = items[k].0;
                    assert(iv[k as int].0 == index);
                    assert(index + (iv.len() - 1 - k) < t0.strokes.len());
                    self.strokes.remove(index);
                    assert(iv.take(k + 1).drop_last() =~= iv.take(k as int));
                    assert(iv.take(k + 1).last() == iv[k as int]);
                    assert(strokes_view(self.strokes@) =~= strokes_view(before).remove(
                        index as int,
                    ));
                }
                assert(iv.take(items.len() as int) =~= iv);
                assert(iv.take(0) =~= Seq::<(usize, StrokeView)>::empty());
            },
        }
        self.undo.push(edit);
        assert(self.timeline().redo =~= t0.redo.drop_last());
        assert(self.timeline().undo =~= t0.undo.push(t0.redo.last()));
        self.record_state();
        assert(self.recorded().drop_last() =~= old(self).recorded());
    }

    /// Erases the strokes whose flag in `hits` is set, as one undoable edit.
    /// When nothing is hit nothing changes, so a pending redo survives a
    /// missed gesture.
    pub fn erase(&mut self, hits: &[bool])
        requires
            hits@.len() == old(self).strokes@.len(),
        ensures
            final(self).timeline() == erase_step(old(self).timeline(), hits@),
            hit_items(old(self).timeline().strokes, hits@, old(self).strokes@.len()).len() == 0
                ==> final(self).recording == old(self).recording,
            hit_items(old(self).timeline().strokes, hits@, old(self).strokes@.len()).len() > 0
                ==> {
                &&& final(self).recording@.len() == old(self).recording@.len() + 1
                &&& final(self).recorded().drop_last() == old(self).recorded()
                &&& final(self).recorded().last() matches RecordedView::Replace { strokes, .. }
                    && strokes == final(self).timeline().strokes
            },
    {
        let ghost t0 = self.timeline();
        let n = self.strokes.len();
        let mut removed: Vec<(usize, Stroke)> = Vec::new();
        let mut i: usize = 0;
        while i < n
            invariant
                i <= n,
                n == self.strokes@.len(),
                n == hits@.len(),
                t0 == self.timeline(),
                items_view(removed@) == hit_items(t0.strokes, hits@, i as nat),
            decreases n - i,
        {
            if hits[i] {
                removed.push((i, self.strokes[i].duplicate()));
            }
            i += 1;
            assert(items_view(removed@) =~= hit_items(t0.strokes, hits@, i as nat));
        }
        let ghost iv = items_view(removed@);
        if removed.len() == 0 {
            return;
        }
        proof {
            lemma_hit_items(t0.strokes, hits@, n as nat);
            lemma_remove_then_insert(t0.strokes, iv);
        }
        assert(iv.take(removed.len() as int) =~= iv);
        let mut k: usize = removed.len();
        while k > 0
            invariant
                k <= removed.len(),
                iv == items_view(removed@),
                remove_safe(t0.strokes, iv),
                self.recording@ == old(self).recording@,
                remove_all(t0.strokes, iv) == remove_all(strokes_view(self.strokes@), iv.take(k as int)),
                strokes_view(self.strokes@).len() == t0.strokes.len() - (removed.len() - k),
                t0.undo == edits_view(self.undo@),
                t0.redo == edits_view(self.redo@),
            decreases k,
        {
            let ghost before = self.strokes@;
            k -= 1;
            let index = removed[k].0;
            assert(iv[k as int].0 == index);
            assert(index + (iv.len() - 1 - k) < t0.strokes.len());
            self.strokes.remove(index);
            assert(iv.take(k + 1).drop_last() =~= iv.take(k as int));
            assert(iv.take(k + 1).last() == iv[k as int]);
            assert(strokes_view(self.strokes@) =~= strokes_view(before).remove(index as int));
        }
        assert(iv.take(removed.len() as int) =~= iv);
        assert(iv.take(0) =~= Seq::<(usize, StrokeView)>::empty());
        self.undo.push(Edit::Removed(removed));
        self.record_state();
        self.redo.clear();
        assert(self.timeline().undo =~= t0.undo.push(EditView::Removed(iv)));
        assert(self.timeline().redo =~= Seq::<EditView>::empty());
        assert(self.recorded().drop_last() =~= old(self).recorded());
    }

    /// Discards every stroke, both stacks and the recording, and resets the
    /// replay clock.
    pub fn clear(&mut self)
        ensures
            final(self).strokes@.len() == 0,
            final(self).undo@.len() == 0,
            final(self).redo@.len() == 0,
            final(self).recording@.len() == 0,
            !final(self).clock_started(),
            well_formed(final(self).timeline()),
    {
        self.strokes.clear();
        self.recording.clear();
        self.started = None;
        self.undo.clear();
        self.redo.clear();
        assert(self.timeline().strokes =~= Seq::<StrokeView>::empty());
        assert(self.timeline().undo =~= Seq::<EditView>::empty());
        assert(self.timeline().redo =~= Seq::<EditView>::empty());
    }

    /// Whether the top edit can be undone without failing.
    pub fn can_undo_safely(&self) -> (r: bool)
        ensures
            r == (self.undo@.len() > 0 ==> undo_safe(self.timeline().strokes, self.timeline().undo.last())),
    {
        let n = self.undo.len();
        if n == 0 {
            return true;
        }
        let ghost e = self.timeline().undo.last();
        assert(edit_view(self.undo@[n - 1]) == e);
        match &self.undo[n - 1] {
            Edit::Added(_) => true,
            Edit::Moved { index, .. } => *index < self.strokes.len(),
            Edit::Removed(items) => {
                let ghost iv = items_view(items@);
                let mut k: usize = 0;
                while k < items.len()
                    invariant
                        k <= items.len(),
                        iv == items_view(items@),
                        e == EditView::Removed(iv),
                        e == self.timeline().undo.last(),
                        self.undo@.len() > 0,
                        forall|j: int| 0 <= j < k ==> (#[trigger] iv[j]).0 <= self.strokes@.len() + j,
                    decreases items.len() - k,
                {
                    assert(iv[k as int].0 == items@[k as int].0);
                    if items[k].0 > self.strokes.len() && items[k].0 - self.strokes.len() > k {
                        assert(!(iv[k as int].0 <= self.strokes@.len() + k));
                        return false;
                    }
                    k += 1;
                }
                true
            },
        }
    }

    /// Whether the top redo edit can be redone without failing.
    pub fn can_redo_safely(&self) -> (r: bool)
        ensures
            r == (self.redo@.len() > 0 ==> redo_safe(self.timeline().strokes, self.timeline().redo.last())),
    {
        let n = self.redo.len();
        if n == 0 {
            return true;
        }
        let ghost e = self.timeline().redo.last();
        assert(edit_view(self.redo@[n - 1]) == e);
        match &self.redo[n - 1] {
            Edit::Added(_) => true,
            Edit::Moved { index, .. } => *index < self.strokes.len(),
            Edit::Removed(items) => {
                let ghost iv = items_view(items@);
                let m = items.len();
                let mut k: usize = 0;
                while k < m
                    invariant
                        k <= m,
                        m == items@.len(),
                        iv == items_view(items@),
                        e == EditView::Removed(iv),
                        e == self.timeline().redo.last(),
                        self.redo@.len() > 0,
                        forall|j: int| 0 <= j < k ==> (#[trigger] iv[j]).0 + (m - 1 - j) < self.strokes@.len(),
                    decreases m - k,
                {
                    assert(iv[k as int].0 == items@[k as int].0);
                    if items[k].0 >= self.strokes.len() || self.strokes.len() - items[k].0 <= m - 1 - k {
                        assert(!(iv[k as int].0 + (m - 1 - k) < self.strokes@.len()));
                        return false;
                    }
                    k += 1;
                }
                true
            },
        }
    }
}

impl Default for History {
    fn default() -> (r: History)
        ensures
            r.strokes@.len() == 0,
            r.undo@.len() == 0,
            r.redo@.len() == 0,
            r.recording@.len() == 0,
            well_formed(r.timeline()),
    {
        History::new()
    }
}

/// Longest move or resize gesture the replay records, in ms.
pub const GESTURE_LIMIT: u64 = 3_600_000;

/// `s` with its points replaced by `points` and its width by `width`; tool,
/// color, opacity, times and text stay.
pub open spec fn reshape(s: StrokeView, points: Seq<Point>, width: u64) -> StrokeView {
    StrokeView { points, width, ..s }
}

impl History {
    /// The latest replay event is a move of stroke `index` of `before` to
    /// `after`, lasting `duration` ms, and the earlier events are those of
    /// `before`.
    pub open spec fn records_move(&self, before: History, index: int, duration: u64, after: StrokeView) -> bool {
        &&& self.recording@.len() == before.recording@.len() + 1
        &&& self.recorded().drop_last() == before.recorded()
        &&& self.recorded().last() matches RecordedView::Move { duration: d, index: i, before: b, after: a, .. }
            && d == duration && i == index && b == before.strokes@[index]@ && a == after
    }

    /// Stroke `index` with its points and width replaced.
    fn reshaped(&self, index: usize, points: Vec<Point>, width: u64) -> (r: Stroke)
        requires
            index < self.strokes@.len(),
        ensures
            r@ == reshape(self.strokes@[index as int]@, points@, width),
    {
        let s = &self.strokes[index];
        let text = match &s.text {
            Some(t) => Some(t.duplicate()),
            None => None,
        };
        Stroke {
            tool: s.tool.clone(),
            color: s.color.clone(),
            width,
            opacity: s.opacity,
            points,
            times: s.times.clone(),
            text,
        }
    }

    /// Moves the stroke at `index` to `points`, its points shifted by the
    /// drag and kept on the page, or `None` when the drag was not finite or
    /// moved nothing; the rest of the stroke stays, so a stroke that kept the
    /// stroke rules still keeps them. Refused (false, nothing changes) for a
    /// missing stroke, a gesture longer than an hour or another number of
    /// points.
    pub fn move_stroke(&mut self, index: usize, points: Option<Vec<Point>>, duration: u64) -> (r: bool)
        ensures
            r == (index < old(self).strokes@.len() && duration <= GESTURE_LIMIT && points is Some
                && points->0@.len() == old(self).strokes@[index as int].points@.len()),
            r ==> ({
                let before = old(self).strokes@[index as int]@;
                let after = reshape(before, points->0@, before.width);
                &&& final(self).timeline() == move_step(old(self).timeline(), index as int, after)
                &&& final(self).records_move(*old(self), index as int, duration, after)
                &&& stroke_shape_ok(before) ==> stroke_shape_ok(after)
            }),
            !r ==> *final(self) == *old(self),
    {
        if index >= self.strokes.len() || duration > GESTURE_LIMIT {
            return false;
        }
        match points {
            Some(points) => {
                if points.len() != self.strokes[index].points.len() {
                    return false;
                }
                let width = self.strokes[index].width;
                let after = self.reshaped(index, points, width);
                self.apply_move(index, after, duration);
                true
            },
            None => false,
        }
    }

    /// Resizes the stroke at `index` by dragging corner `handle` (`nw`,
    /// `ne`, `sw` or `se`); `shape` holds the scaled points and width, or is
    /// `None` when the point was not finite, the numbers break the stroke
    /// rules or nothing changed; the rest of the stroke stays. Refused
    /// (false, nothing changes) for another handle, a missing stroke, a
    /// gesture longer than an hour, another number of points or a result
    /// that breaks the stroke rules.
    pub fn resize_stroke(&mut self, index: usize, handle: &str, shape: Option<(Vec<Point>, u64)>, duration: u64) -> (r: bool)
        ensures
            r == ((handle@ == "nw"@ || handle@ == "ne"@ || handle@ == "sw"@ || handle@ == "se"@)
                && index < old(self).strokes@.len() && duration <= GESTURE_LIMIT && shape is Some
                && (shape->0).0@.len() == old(self).strokes@[index as int].points@.len()
                && stroke_shape_ok(reshape(old(self).strokes@[index as int]@, (shape->0).0@, (shape->0).1))),
            r ==> ({
                let after = reshape(old(self).strokes@[index as int]@, (shape->0).0@, (shape->0).1);
                &&& final(self).timeline() == move_step(old(self).timeline(), index as int, after)
                &&& final(self).records_move(*old(self), index as int, duration, after)
            }),
            !r ==> *final(self) == *old(self),
    {
        let corner = crate::text::same_text(handle, "nw") || crate::text::same_text(handle, "ne")
            || crate::text::same_text(handle, "sw") || crate::text::same_text(handle, "se");
        if !corner || index >= self.strokes.len() || duration > GESTURE_LIMIT {
            return false;
        }
        match shape {
            Some((points, width)) => {
                if points.len() != self.strokes[index].points.len() {
                    return false;
                }
                let after = self.reshaped(index, points, width);
                if !after.valid_shape() {
                    return false;
                }
                self.apply_move(index, after, duration);
                true
            },
            None => false,
        }
    }
}

} // verus!
