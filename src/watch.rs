use crate::clock::{cycle_text, lemma_cycle_text_order, text_less, Moment};
use crate::model::{
    file_name_of, join_path, joined, EventFile, EventFileError, EventTracker, ScratchRule,
};
use vstd::prelude::*;

verus! {

/// The kind of a change notification.
#[derive(Clone, Copy, Debug, PartialEq, Eq, Structural)]
pub enum ChangeKind {
    /// A name change: one half of an editor's atomic save.
    Rename,
    /// A change of the file's data.
    Modify,
    Other,
}

/// What the watch loop is to do after one notification.
pub enum Step {
    /// Not a rename: nothing to do.
    Ignored,
    /// A rename whose paths give no file to back up.
    Rejected(EventFileError),
    /// A rename of an editor's scratch file: dropped.
    Temporary,
    /// The opening half of a save: held until its closing half.
    Pending,
    /// The closing half of a save: copy the file as described.
    Copy(EventFile),
}

/// At least `cycle_interval` seconds have passed from `last` to `now`.
pub open spec fn gap_reached(last: Moment, now: Moment, cycle_interval: i64) -> bool {
    now.millis - last.millis >= cycle_interval * 1000
}

/// The file name of an event's source, the first of its paths.
pub open spec fn source_name(paths: Seq<Seq<char>>) -> Option<Seq<char>> {
    if paths.len() == 0 {
        None
    } else {
        file_name_of(paths[0])
    }
}

/// A rename of a file that is no scratch file: one half of a save.
pub open spec fn qualifies(rule: ScratchRule, kind: ChangeKind, paths: Seq<Seq<char>>) -> bool {
    kind == ChangeKind::Rename && source_name(paths) is Some && !rule.marks(source_name(paths)->0)
}

/// A notification closes a save, and a copy is made, when it qualifies and
/// another half is pending.
pub open spec fn copies(
    rule: ScratchRule,
    pending: Seq<Seq<char>>,
    kind: ChangeKind,
    paths: Seq<Seq<char>>,
) -> bool {
    qualifies(rule, kind, paths) && pending.len() > 0
}

/// The pending set after a notification: an opening half is pushed, a
/// closing half pops.
pub open spec fn next_pending(
    rule: ScratchRule,
    pending: Seq<Seq<char>>,
    kind: ChangeKind,
    paths: Seq<Seq<char>>,
) -> Seq<Seq<char>> {
    if !qualifies(rule, kind, paths) {
        pending
    } else if pending.len() == 0 {
        seq![paths[0]]
    } else {
        pending.drop_last()
    }
}

/// Idle after a notification: a copy makes the tracker active, otherwise
/// it turns idle once the gap since the last backup reaches the interval.
pub open spec fn next_idle(t: EventTracker, now: Moment, cycle_interval: i64, copy: bool) -> bool {
    if copy {
        false
    } else {
        t.idle || gap_reached(t.last_backup, now, cycle_interval)
    }
}

/// A copy made while idle opens a new cycle at `now`; otherwise the cycle
/// stays.
pub open spec fn next_cycle(t: EventTracker, now: Moment, cycle_interval: i64, copy: bool) -> Moment {
    if copy && (t.idle || gap_reached(t.last_backup, now, cycle_interval)) {
        now
    } else {
        t.current_cycle
    }
}

/// Where a copy of `path` lands: `backup_dir / cycle id / file name`.
pub open spec fn target_of(backup_dir: Seq<char>, cycle: Moment, path: Seq<char>) -> Seq<char> {
    joined(joined(backup_dir, cycle_text(cycle.stamp)), file_name_of(path)->0)
}

/// Handles one change notification observed at `now`: updates the idle
/// state, pairs the two renames of a save, and opens or continues the backup
/// cycle for the copy it asks for. A descriptor handed out for a copy marks
/// its file as temporary by `rule`, which never holds there.
pub fn handle_event(
    tracker: &mut EventTracker,
    kind: ChangeKind,
    paths: &Vec<String>,
    now: Moment,
    backup_dir: &str,
    cycle_interval: i64,
    rule: &ScratchRule,
) -> (r: Step)
    requires
        old(tracker).wf(),
        now.wf(),
    ensures
        final(tracker).wf(),
        final(tracker).pending() == next_pending(
            *rule,
            old(tracker).pending(),
            kind,
            paths@.map_values(|p: String| p@),
        ),
        r is Copy == copies(
            *rule,
            old(tracker).pending(), kind, paths@.map_values(|p: String| p@)),
        final(tracker).idle == next_idle(*old(tracker), now, cycle_interval, r is Copy),
        final(tracker).current_cycle == next_cycle(*old(tracker), now, cycle_interval, r is Copy),
        final(tracker).last_backup == if r is Copy {
            now
        } else {
            old(tracker).last_backup
        },
        kind != ChangeKind::Rename ==> r is Ignored,
        kind == ChangeKind::Rename && paths@.len() == 0 ==> (r matches Step::Rejected(e) && e
            == EventFileError::NoPaths),
        kind == ChangeKind::Rename && paths@.len() > 0 && file_name_of(paths@[0]@) is None ==> (
        r matches Step::Rejected(e) && e == EventFileError::NoFileName),
        kind == ChangeKind::Rename && source_name(paths@.map_values(|p: String| p@)) is Some
            && rule.marks(source_name(paths@.map_values(|p: String| p@))->0) ==> r is Temporary,
        qualifies(*rule, kind, paths@.map_values(|p: String| p@)) && old(tracker).pending().len() == 0
            ==> r is Pending,
        r matches Step::Copy(f) ==> (!f.is_temp_file && f.source_path@ == paths@[0]@ && Some(
            f.file_name@,
        )
            == file_name_of(paths@[0]@) && f.target_dir@ == joined(
            backup_dir@,
            cycle_text(final(tracker).current_cycle.stamp),
        ) && f.target_path@ == target_of(backup_dir@, final(tracker).current_cycle, paths@[0]@)),
{
    let ghost pv = paths@.map_values(|p: String| p@);
    if tracker.duration_since_last_backup(now) >= cycle_interval as i128 * 1000 {
        tracker.idle = true;
    }
    if kind != ChangeKind::Rename {
        return Step::Ignored;
    }
    let f = match EventFile::new(paths).build_source() {
        Ok(f) => f,
        Err(e) => return Step::Rejected(e),
    };
    assert(f.source_path@ == pv[0]);
    let f = match f.build_file_name_and_extension() {
        Ok(f) => f,
        Err(e) => return Step::Rejected(e),
    };
    let mut f = f;
    f.is_temp_file = rule.is_scratch(f.file_name.as_str());
    if f.is_temp_file {
        return Step::Temporary;
    }
    if tracker.last().is_none() {
        let source = f.source_path;
        tracker.push(source);
        assert(tracker.pending() =~= seq![pv[0]]);
        Step::Pending
    } else {
        if tracker.is_idle() {
            tracker.start_cycle(now);
        } else {
            tracker.update_last_backup(now);
        }
        let cycle = tracker.current_cycle.cycle_id();
        let dir = join_path(backup_dir, cycle.as_str());
        let f = match f.build_target(dir.as_str()) {
            Ok(f) => f,
            Err(e) => return Step::Rejected(e),
        };
        tracker.pop();
        Step::Copy(f)
    }
}

/// The first qualifying rename after quiescence is held as pending, and no
/// copy is made.
pub proof fn lemma_first_half_is_held(
    rule: ScratchRule,
    pending: Seq<Seq<char>>,
    kind: ChangeKind,
    paths: Seq<Seq<char>>,
)
    requires
        pending.len() == 0,
        qualifies(rule, kind, paths),
    ensures
        next_pending(rule, pending, kind, paths) == seq![paths[0]],
        !copies(rule, pending, kind, paths),
{
}

/// A qualifying rename while a half is pending makes exactly one copy and
/// empties the pending set again.
pub proof fn lemma_second_half_copies(
    rule: ScratchRule,
    pending: Seq<Seq<char>>,
    kind: ChangeKind,
    paths: Seq<Seq<char>>,
)
    requires
        pending.len() == 1,
        qualifies(rule, kind, paths),
    ensures
        copies(rule, pending, kind, paths),
        next_pending(rule, pending, kind, paths).len() == 0,
{
}

/// The pending set never holds more than one path.
pub proof fn lemma_pending_at_most_one(
    rule: ScratchRule,
    pending: Seq<Seq<char>>,
    kind: ChangeKind,
    paths: Seq<Seq<char>>,
)
    requires
        pending.len() <= 1,
    ensures
        next_pending(rule, pending, kind, paths).len() <= 1,
{
}

/// A rename of a scratch file neither enters the pending set nor makes a
/// copy.
pub proof fn lemma_temporary_is_dropped(
    rule: ScratchRule,
    pending: Seq<Seq<char>>,
    paths: Seq<Seq<char>>,
)
    requires
        source_name(paths) is Some,
        rule.marks(source_name(paths)->0),
    ensures
        next_pending(rule, pending, ChangeKind::Rename, paths) == pending,
        !copies(rule, pending, ChangeKind::Rename, paths),
{
}

/// While active, a copy made before the idle interval has passed stays in
/// the current cycle.
pub proof fn lemma_cycle_kept_while_active(t: EventTracker, now: Moment, cycle_interval: i64)
    requires
        !t.idle,
        !gap_reached(t.last_backup, now, cycle_interval),
    ensures
        next_cycle(t, now, cycle_interval, true) == t.current_cycle,
        cycle_text(next_cycle(t, now, cycle_interval, true).stamp) == cycle_text(
            t.current_cycle.stamp,
        ),
{
}

/// Once the idle interval has passed, the next copy opens a cycle at `now`,
/// whose folder name sorts after the current one when the local clock has
/// moved on.
pub proof fn lemma_new_cycle_after_gap(t: EventTracker, now: Moment, cycle_interval: i64)
    requires
        t.wf(),
        now.wf(),
        gap_reached(t.last_backup, now, cycle_interval),
    ensures
        next_cycle(t, now, cycle_interval, true) == now,
        t.current_cycle.stamp.before(&now.stamp) ==> text_less(
            cycle_text(t.current_cycle.stamp),
            cycle_text(next_cycle(t, now, cycle_interval, true).stamp),
        ),
{
    if t.current_cycle.stamp.before(&now.stamp) {
        lemma_cycle_text_order(t.current_cycle.stamp, now.stamp);
    }
}

/// The target of a copy depends on the source's file name alone, not on how
/// deep the source lies.
pub proof fn lemma_target_ignores_nesting(
    backup_dir: Seq<char>,
    cycle: Moment,
    p: Seq<char>,
    q: Seq<char>,
)
    requires
        file_name_of(p) == file_name_of(q),
    ensures
        target_of(backup_dir, cycle, p) == target_of(backup_dir, cycle, q),
{
}

/// The pending set after a run of notifications that starts with none.
pub open spec fn pending_after(rule: ScratchRule, events: Seq<(ChangeKind, Seq<Seq<char>>)>) -> Seq<
    Seq<char>,
>
    decreases events.len(),
{
    if events.len() == 0 {
        Seq::empty()
    } else {
        let e = events.last();
        next_pending(rule, pending_after(rule, events.drop_last()), e.0, e.1)
    }
}

/// How many copies a run of notifications makes.
pub open spec fn copies_in(rule: ScratchRule, events: Seq<(ChangeKind, Seq<Seq<char>>)>) -> nat
    decreases events.len(),
{
    if events.len() == 0 {
        0
    } else {
        let e = events.last();
        copies_in(rule, events.drop_last()) + if copies(
            rule,
            pending_after(rule, events.drop_last()),
            e.0,
            e.1,
        ) {
            1nat
        } else {
            0nat
        }
    }
}

/// How many notifications of a run qualify as one half of a save.
pub open spec fn qualifying_in(rule: ScratchRule, events: Seq<(ChangeKind, Seq<Seq<char>>)>) -> nat
    decreases events.len(),
{
    if events.len() == 0 {
        0
    } else {
        let e = events.last();
        qualifying_in(rule, events.drop_last()) + if qualifies(rule, e.0, e.1) {
            1nat
        } else {
            0nat
        }
    }
}

/// Over any run of notifications from an empty pending set, qualifying
/// renames alternately push and pop: the pending set holds one path exactly
/// when an odd number qualified, and every second one makes a copy.
pub proof fn lemma_run_pairs_halves(rule: ScratchRule, events: Seq<(ChangeKind, Seq<Seq<char>>)>)
    ensures
        pending_after(rule, events).len() == qualifying_in(rule, events) % 2,
        copies_in(rule, events) == qualifying_in(rule, events) / 2,
    decreases events.len(),
{
    if events.len() > 0 {
        lemma_run_pairs_halves(rule, events.drop_last());
    }
}

} // verus!
