//! The schedule evaluator: planned and recurring activation windows, the
//! decision that each tick of the clock takes, and the check that keeps
//! recurring windows from overlapping.

use vstd::prelude::*;
use crate::clock::{
    format_datetime_input, format_time, local_now, parse_datetime_input, timestamp_id,
    parse_time_input, spec_format_datetime_input, spec_format_time, spec_parse_clock_time,
    spec_parse_datetime,
};
use crate::preset::{Preset, PresetList, PresetView};
use crate::sequencer::{Command, Sequencer, SequencerState};
use crate::shared::ScheduleType;
use crate::text::str_eq;
use crate::time::{LocalNow, Moment, TimeOfDay, WeekdaySet};

verus! {

/// A window between two moments during which a preset plays.
#[derive(Debug)]
pub struct PlannedSchedule {
    pub id: String,
    /// First moment of the window.
    pub start: Moment,
    /// First moment after the window.
    pub end: Moment,
    pub preset: Preset,
}

/// A window between two times of day, on some days of every week, during
/// which a preset plays.
#[derive(Debug)]
pub struct RecurringSchedule {
    pub id: String,
    pub weekdays: WeekdaySet,
    /// First time of the window.
    pub start: TimeOfDay,
    /// First time after the window.
    pub end: TimeOfDay,
    pub preset: Preset,
}

/// What a new recurring window collides with: the days it shares with an
/// existing schedule, and that schedule's window.
#[derive(Debug, Clone, Copy, PartialEq, Eq, Structural)]
pub struct RecurringScheduleOverlap {
    pub weekdays: WeekdaySet,
    pub start: TimeOfDay,
    pub end: TimeOfDay,
}

/// Why the form for a new schedule was not taken.
#[derive(Debug, PartialEq, Eq)]
pub enum Refusal {
    /// The start field holds no moment or time.
    Start,
    /// The end field holds no moment or time.
    End,
    /// No preset has the chosen identifier.
    Preset,
    /// The window collides with these.
    Conflicts(Vec<RecurringScheduleOverlap>),
}

/// What a tick of the clock decides.
#[derive(Debug, Clone, Copy, PartialEq, Eq, Structural)]
pub enum Tick {
    /// The scheduler is off: the clock's ticks are to be paused.
    Paused,
    /// Nothing changes.
    Keep,
    /// The schedule at this position of its list has begun: its preset is
    /// loaded and playback starts.
    Activate(usize),
    /// No schedule holds any longer: playback stops.
    Deactivate,
}

/// The schedule evaluator's state.
#[derive(Debug)]
pub struct Scheduler {
    /// Which of the two lists is evaluated.
    pub mode: ScheduleType,
    pub planned: Vec<PlannedSchedule>,
    pub recurring: Vec<RecurringSchedule>,
    /// Whether the scheduler drives playback.
    pub enabled: bool,
}

/// Whether the moment lies in the planned window, whose end is exclusive.
pub open spec fn spec_planned_holds(s: PlannedSchedule, now: LocalNow) -> bool {
    s.start@ <= now.moment@ < s.end@
}

/// Whether the day is one of the schedule's days and the time lies in its
/// window, whose end is exclusive.
pub open spec fn spec_recurring_holds(s: RecurringSchedule, now: LocalNow) -> bool {
    s.weekdays.spec_contains(now.weekday) && s.start@ <= now.time@ < s.end@
}

/// Position of the first `true`.
pub open spec fn spec_first_true(hits: Seq<bool>) -> Option<int>
    decreases hits.len(),
{
    if hits.len() == 0 {
        None
    } else {
        match spec_first_true(hits.drop_last()) {
            Some(at) => Some(at),
            None => if hits.last() {
                Some(hits.len() - 1)
            } else {
                None
            },
        }
    }
}

/// Whether `found` is the position of the first `true`, or none where there
/// is no `true`.
pub open spec fn spec_is_first(hits: Seq<bool>, found: Option<int>) -> bool {
    match found {
        Some(at) => 0 <= at < hits.len() && hits[at] && forall|j: int| 0 <= j < at ==> !hits[j],
        None => forall|j: int| 0 <= j < hits.len() ==> !hits[j],
    }
}

/// The first `true` is what [`spec_first_true`] finds, and nothing else is.
pub proof fn lemma_first_true(hits: Seq<bool>, found: Option<int>)
    ensures
        spec_is_first(hits, spec_first_true(hits)),
        spec_is_first(hits, found) ==> found == spec_first_true(hits),
    decreases hits.len(),
{
    if hits.len() > 0 {
        let front = hits.drop_last();
        lemma_first_true(front, spec_first_true(front));
        assert forall|j: int| 0 <= j < front.len() implies front[j] == hits[j] by {}
        match spec_first_true(front) {
            Some(at) => {
                assert(hits[at] == front[at]);
            },
            None => {
                assert forall|j: int| 0 <= j < front.len() implies !hits[j] by {
                    assert(!front[j]);
                }
            },
        }
        if spec_is_first(hits, found) {
            match (found, spec_first_true(hits)) {
                (Some(a), Some(b)) => {
                    if a < b {
                        assert(!hits[a]);
                    }
                    if b < a {
                        assert(!hits[b]);
                    }
                },
                (Some(a), None) => {
                    assert(!hits[a]);
                },
                (None, Some(b)) => {
                    assert(!hits[b]);
                },
                (None, None) => {},
            }
        }
    }
}

/// Whether two windows of the day collide, their bounds included: the new
/// window starts or ends inside the old one, or covers it.
pub open spec fn spec_windows_collide(start: nat, end: nat, old_start: nat, old_end: nat) -> bool {
    ||| old_start <= start <= old_end
    ||| old_start <= end <= old_end
    ||| (start <= old_start && end >= old_end)
}

/// Whether the time `t` lies in the window, its bounds included.
pub open spec fn spec_in_window(t: nat, start: nat, end: nat) -> bool {
    start <= t <= end
}

/// For windows that do not end before they start, to collide is to share a
/// time of day, and it does not matter which of the two windows is the new
/// one.
pub proof fn lemma_collide_is_sharing(start: nat, end: nat, old_start: nat, old_end: nat)
    requires
        start <= end,
        old_start <= old_end,
    ensures
        spec_windows_collide(start, end, old_start, old_end) <==> exists|t: nat|
            #[trigger] spec_in_window(t, start, end) && spec_in_window(t, old_start, old_end),
        spec_windows_collide(start, end, old_start, old_end) == spec_windows_collide(
            old_start,
            old_end,
            start,
            end,
        ),
{
    if spec_windows_collide(start, end, old_start, old_end) {
        let t = if old_start <= start { start } else { old_start };
        assert(spec_in_window(t, start, end) && spec_in_window(t, old_start, old_end));
    }
}

/// What a new window on `weekdays` from `start` to `end` collides with in
/// the schedule `s`, if anything.
pub open spec fn spec_conflict(
    s: RecurringSchedule,
    weekdays: WeekdaySet,
    start: TimeOfDay,
    end: TimeOfDay,
) -> Option<RecurringScheduleOverlap> {
    let shared = s.weekdays.spec_intersect(weekdays);
    if !shared.spec_is_empty() && spec_windows_collide(start@, end@, s.start@, s.end@) {
        Some(RecurringScheduleOverlap { weekdays: shared, start: s.start, end: s.end })
    } else {
        None
    }
}

/// All that a new window collides with, in the order of the schedules.
pub open spec fn spec_conflicts(
    existing: Seq<RecurringSchedule>,
    weekdays: WeekdaySet,
    start: TimeOfDay,
    end: TimeOfDay,
) -> Seq<RecurringScheduleOverlap> {
    existing.filter(|s: RecurringSchedule| spec_conflict(s, weekdays, start, end) is Some).map_values(
        |s: RecurringSchedule| spec_conflict(s, weekdays, start, end).unwrap(),
    )
}

/// Whether no schedule of the list collides with one before it.
pub open spec fn spec_apart(list: Seq<RecurringSchedule>) -> bool {
    forall|i: int, j: int|
        #![trigger list[i], list[j]]
        0 <= i < j < list.len() ==> spec_conflict(list[i], list[j].weekdays, list[j].start, list[j].end)
            is None
}

/// A new window collides with nothing exactly when it collides with no
/// schedule of the list.
pub proof fn lemma_no_conflicts(
    existing: Seq<RecurringSchedule>,
    weekdays: WeekdaySet,
    start: TimeOfDay,
    end: TimeOfDay,
)
    ensures
        spec_conflicts(existing, weekdays, start, end).len() == 0 <==> forall|i: int|
            0 <= i < existing.len() ==> spec_conflict(#[trigger] existing[i], weekdays, start, end)
                is None,
{
    let hit = |s: RecurringSchedule| spec_conflict(s, weekdays, start, end) is Some;
    let hits = existing.filter(hit);
    assert(spec_conflicts(existing, weekdays, start, end).len() == hits.len());
    if hits.len() == 0 {
        assert forall|i: int| 0 <= i < existing.len() implies spec_conflict(
            #[trigger] existing[i],
            weekdays,
            start,
            end,
        ) is None by {
            if hit(existing[i]) {
                existing.lemma_filter_contains(hit, i);
                assert(hits.contains(existing[i]));
            }
        }
    } else {
        existing.lemma_filter_pred(hit, 0);
        existing.lemma_filter_contains_rev(hit, hits[0]);
        let k = choose|k: int| 0 <= k < existing.len() && existing[k] == hits[0];
        assert(spec_conflict(existing[k], weekdays, start, end) is Some);
    }
}

/// A list whose schedules keep apart still does after a schedule was taken
/// into it: every schedule that creation accepts collides with none before
/// it.
pub proof fn lemma_creation_keeps_apart(existing: Seq<RecurringSchedule>, new: RecurringSchedule)
    requires
        spec_apart(existing),
        spec_conflicts(existing, new.weekdays, new.start, new.end).len() == 0,
    ensures
        spec_apart(existing.push(new)),
{
    lemma_no_conflicts(existing, new.weekdays, new.start, new.end);
    let list = existing.push(new);
    assert forall|i: int, j: int|
        #![trigger list[i], list[j]]
        0 <= i < j < list.len() implies spec_conflict(
        list[i],
        list[j].weekdays,
        list[j].start,
        list[j].end,
    ) is None by {
        assert(list[i] == existing[i]);
        if j < existing.len() {
            assert(list[j] == existing[j]);
        } else {
            assert(list[j] == new);
        }
    }
}

/// Decides whether two windows of the day collide.
pub fn windows_collide(start: &TimeOfDay, end: &TimeOfDay, old_start: &TimeOfDay, old_end: &TimeOfDay) -> (yes: bool)
    ensures
        yes == spec_windows_collide(start@, end@, old_start@, old_end@),
{
    let s = start.seconds();
    let e = end.seconds();
    let os = old_start.seconds();
    let oe = old_end.seconds();
    (os <= s && s <= oe) || (os <= e && e <= oe) || (s <= os && e >= oe)
}

/// What a new window collides with in one schedule.
pub fn conflict_with(
    s: &RecurringSchedule,
    weekdays: &WeekdaySet,
    start: &TimeOfDay,
    end: &TimeOfDay,
) -> (found: Option<RecurringScheduleOverlap>)
    ensures
        found == spec_conflict(*s, *weekdays, *start, *end),
{
    let shared = s.weekdays.intersect(weekdays);
    if !shared.is_empty() && windows_collide(start, end, &s.start, &s.end) {
        Some(RecurringScheduleOverlap { weekdays: shared, start: s.start, end: s.end })
    } else {
        None
    }
}

/// All that a new window collides with among the existing schedules.
pub fn find_conflicts(
    existing: &Vec<RecurringSchedule>,
    weekdays: &WeekdaySet,
    start: &TimeOfDay,
    end: &TimeOfDay,
) -> (found: Vec<RecurringScheduleOverlap>)
    ensures
        found@ == spec_conflicts(existing@, *weekdays, *start, *end),
{
    let ghost hit = |s: RecurringSchedule| spec_conflict(s, *weekdays, *start, *end) is Some;
    let ghost what = |s: RecurringSchedule| spec_conflict(s, *weekdays, *start, *end).unwrap();
    let mut found: Vec<RecurringScheduleOverlap> = Vec::new();
    let mut i: usize = 0;
    proof {
        reveal(Seq::filter);
        assert(existing@.subrange(0, 0) =~= Seq::<RecurringSchedule>::empty());
    }
    while i < existing.len()
        invariant
            i <= existing.len(),
            hit == |s: RecurringSchedule| spec_conflict(s, *weekdays, *start, *end) is Some,
            what == |s: RecurringSchedule| spec_conflict(s, *weekdays, *start, *end).unwrap(),
            found@ == existing@.subrange(0, i as int).filter(hit).map_values(what),
        decreases existing.len() - i,
    {
        let conflict = conflict_with(&existing[i], weekdays, start, end);
        proof {
            reveal(Seq::filter);
            let shorter = existing@.subrange(0, i as int);
            let longer = existing@.subrange(0, i + 1);
            assert(longer.drop_last() =~= shorter);
            assert(longer.last() == existing@[i as int]);
            if conflict is Some {
                assert(longer.filter(hit) == shorter.filter(hit).push(existing@[i as int]));
                assert(longer.filter(hit).map_values(what) =~= shorter.filter(hit).map_values(
                    what,
                ).push(conflict.unwrap()));
            } else {
                assert(longer.filter(hit) == shorter.filter(hit));
            }
        }
        match conflict {
            Some(c) => {
                found.push(c);
            },
            None => {},
        }
        i += 1;
    }
    assert(existing@.subrange(0, existing@.len() as int) =~= existing@);
    found
}

impl Scheduler {
    /// For each schedule of the list in force, whether it holds now.
    pub open spec fn spec_hits(self, now: LocalNow) -> Seq<bool> {
        match self.mode {
            ScheduleType::Planned => self.planned@.map_values(
                |s: PlannedSchedule| spec_planned_holds(s, now),
            ),
            ScheduleType::Reccuring => self.recurring@.map_values(
                |s: RecurringSchedule| spec_recurring_holds(s, now),
            ),
        }
    }

    /// Position of the schedule that holds now: the first of its list that
    /// does.
    pub open spec fn spec_current(self, now: LocalNow) -> Option<int> {
        spec_first_true(self.spec_hits(now))
    }

    /// The preset of the schedule at position `at` of the list in force.
    pub open spec fn spec_preset_at(self, at: int) -> PresetView {
        match self.mode {
            ScheduleType::Planned => self.planned@[at].preset@,
            ScheduleType::Reccuring => self.recurring@[at].preset@,
        }
    }

    /// What a tick decides. A schedule that holds starts playback only where
    /// nothing plays; where none holds, playback stops.
    pub open spec fn spec_decide(self, playing: bool, now: LocalNow) -> Tick {
        if !self.enabled {
            Tick::Paused
        } else {
            match self.spec_current(now) {
                Some(at) => if playing {
                    Tick::Keep
                } else {
                    Tick::Activate(at as usize)
                },
                None => if playing {
                    Tick::Deactivate
                } else {
                    Tick::Keep
                },
            }
        }
    }

    /// What a decision makes of the sequencer.
    pub open spec fn spec_apply(self, state: SequencerState, decision: Tick) -> (SequencerState, Command) {
        match decision {
            Tick::Activate(at) => state.with_preset(self.spec_preset_at(at as int)).set_play(true),
            Tick::Deactivate => state.set_play(false),
            Tick::Keep => (state, Command::Idle),
            Tick::Paused => (state, Command::Idle),
        }
    }

    /// One tick: the decision, and what it makes of the sequencer.
    pub open spec fn spec_tick(self, state: SequencerState, now: LocalNow) -> (SequencerState, Command) {
        self.spec_apply(state, self.spec_decide(state.playing, now))
    }

    /// The decisions of a run of ticks, one after the other, with nothing
    /// else touching the sequencer in between.
    pub open spec fn spec_run(self, state: SequencerState, nows: Seq<LocalNow>) -> Seq<Tick>
        decreases nows.len(),
    {
        if nows.len() == 0 {
            Seq::empty()
        } else {
            seq![self.spec_decide(state.playing, nows[0])] + self.spec_run(
                self.spec_tick(state, nows[0]).0,
                nows.drop_first(),
            )
        }
    }

    /// A scheduler that is off, with no schedules, set to recurring
    /// schedules.
    pub fn new() -> (scheduler: Scheduler)
        ensures
            scheduler.mode == ScheduleType::Reccuring,
            scheduler.planned@.len() == 0,
            scheduler.recurring@.len() == 0,
            !scheduler.enabled,
    {
        Scheduler {
            mode: ScheduleType::Reccuring,
            planned: Vec::new(),
            recurring: Vec::new(),
            enabled: false,
        }
    }

    /// Position of the first planned schedule that holds now.
    fn current_planned(&self, now: &LocalNow) -> (found: Option<usize>)
        ensures
            spec_is_first(
                self.planned@.map_values(|s: PlannedSchedule| spec_planned_holds(s, *now)),
                match found {
                    Some(at) => Some(at as int),
                    None => None,
                },
            ),
    {
        let mut i: usize = 0;
        while i < self.planned.len()
            invariant
                i <= self.planned.len(),
                forall|j: int| 0 <= j < i ==> !spec_planned_holds(#[trigger] self.planned@[j], *now),
            decreases self.planned.len() - i,
        {
            let s = &self.planned[i];
            if s.start.secs <= now.moment.secs && now.moment.secs < s.end.secs {
                return Some(i);
            }
            i += 1;
        }
        None
    }

    /// Position of the first recurring schedule that holds now.
    fn current_recurring(&self, now: &LocalNow) -> (found: Option<usize>)
        ensures
            spec_is_first(
                self.recurring@.map_values(|s: RecurringSchedule| spec_recurring_holds(s, *now)),
                match found {
                    Some(at) => Some(at as int),
                    None => None,
                },
            ),
    {
        let mut i: usize = 0;
        let time = now.time.seconds();
        while i < self.recurring.len()
            invariant
                i <= self.recurring.len(),
                time == now.time@,
                forall|j: int| 0 <= j < i ==> !spec_recurring_holds(#[trigger] self.recurring@[j], *now),
            decreases self.recurring.len() - i,
        {
            let s = &self.recurring[i];
            if s.weekdays.contains(now.weekday) && s.start.seconds() <= time && time < s.end.seconds() {
                return Some(i);
            }
            i += 1;
        }
        None
    }

    /// Position of the schedule that holds now, in the list in force.
    pub fn current(&self, now: &LocalNow) -> (found: Option<usize>)
        ensures
            self.spec_current(*now) == match found {
                Some(at) => Some(at as int),
                None => None::<int>,
            },
            found matches Some(at) ==> at < self.spec_hits(*now).len(),
    {
        let found = match self.mode {
            ScheduleType::Planned => self.current_planned(now),
            ScheduleType::Reccuring => self.current_recurring(now),
        };
        proof {
            lemma_first_true(
                self.spec_hits(*now),
                match found {
                    Some(at) => Some(at as int),
                    None => None,
                },
            );
        }
        found
    }

    /// What a tick at `now` decides for a sequencer that plays or does not.
    pub fn decide(&self, playing: bool, now: &LocalNow) -> (decision: Tick)
        ensures
            decision == self.spec_decide(playing, *now),
            decision matches Tick::Activate(at) ==> at < self.spec_hits(*now).len(),
    {
        if !self.enabled {
            Tick::Paused
        } else {
            match self.current(now) {
                Some(at) => if playing {
                    Tick::Keep
                } else {
                    Tick::Activate(at)
                },
                None => if playing {
                    Tick::Deactivate
                } else {
                    Tick::Keep
                },
            }
        }
    }

    /// One tick at `now`: decides, and carries the decision out on the
    /// sequencer. A schedule that holds loads its preset and starts playback
    /// where nothing plays yet; where no schedule holds, playback stops. The
    /// first schedule of the list that holds wins.
    pub fn tick_at(&self, seq: &mut Sequencer, now: &LocalNow) -> (outcome: (Tick, Command))
        ensures
            outcome.0 == self.spec_decide(old(seq).playing, *now),
            (final(seq)@, outcome.1) == self.spec_tick(old(seq)@, *now),
    {
        let decision = self.decide(seq.playing, now);
        let command = match decision {
            Tick::Activate(at) => {
                match self.mode {
                    ScheduleType::Planned => seq.apply_preset(&self.planned[at].preset),
                    ScheduleType::Reccuring => seq.apply_preset(&self.recurring[at].preset),
                }
                seq.set_play(true)
            },
            Tick::Deactivate => seq.set_play(false),
            Tick::Keep => Command::Idle,
            Tick::Paused => Command::Idle,
        };
        (decision, command)
    }

    /// One tick at the time that the local wall clock shows.
    pub fn tick(&self, seq: &mut Sequencer) -> (outcome: (Tick, Command))
        ensures
            exists|now: LocalNow|
                outcome.0 == self.spec_decide(old(seq).playing, now) && (final(seq)@, outcome.1)
                    == #[trigger] self.spec_tick(old(seq)@, now),
    {
        let now = local_now();
        let outcome = self.tick_at(seq, &now);
        assert((seq@, outcome.1) == self.spec_tick(old(seq)@, now));
        outcome
    }

    /// Shows the other list of schedules; the old list no longer counts.
    pub fn set_mode(&mut self, mode: ScheduleType)
        ensures
            final(self).mode == mode,
            final(self).planned@ == old(self).planned@,
            final(self).recurring@ == old(self).recurring@,
            final(self).enabled == old(self).enabled,
    {
        self.mode = mode;
    }

    /// The clock button: switches the scheduler on or off. The button is
    /// disabled while the list in force is empty, so nothing changes then.
    pub fn toggle_enabled(&mut self) -> (enabled: bool)
        ensures
            enabled == final(self).enabled,
            final(self).enabled == (if old(self).spec_list_len() == 0 {
                old(self).enabled
            } else {
                !old(self).enabled
            }),
            final(self).mode == old(self).mode,
            final(self).planned@ == old(self).planned@,
            final(self).recurring@ == old(self).recurring@,
    {
        if !self.is_schedules_empty() {
            self.enabled = !self.enabled;
        }
        self.enabled
    }

    /// Number of schedules in the list in force.
    pub open spec fn spec_list_len(self) -> nat {
        match self.mode {
            ScheduleType::Planned => self.planned@.len(),
            ScheduleType::Reccuring => self.recurring@.len(),
        }
    }

    /// Whether the list in force holds no schedule.
    pub fn is_schedules_empty(&self) -> (empty: bool)
        ensures
            empty == (self.spec_list_len() == 0),
    {
        match self.mode {
            ScheduleType::Planned => self.planned.len() == 0,
            ScheduleType::Reccuring => self.recurring.len() == 0,
        }
    }

    /// Appends a planned schedule. Planned windows are not checked against
    /// each other: a window that overlaps an older one is taken as it is, and
    /// the older one wins while both hold.
    pub fn create_planned(&mut self, id: String, start: Moment, end: Moment, preset: Preset)
        ensures
            final(self).planned@ == old(self).planned@.push(PlannedSchedule { id, start, end, preset }),
            final(self).recurring@ == old(self).recurring@,
            final(self).mode == old(self).mode,
            final(self).enabled == old(self).enabled,
    {
        self.planned.push(PlannedSchedule { id, start, end, preset });
    }

    /// Appends a recurring schedule, unless its window collides with an
    /// existing schedule on a day that both have. Then nothing is changed and
    /// all collisions are returned.
    pub fn create_recurring(
        &mut self,
        id: String,
        weekdays: WeekdaySet,
        start: TimeOfDay,
        end: TimeOfDay,
        preset: Preset,
    ) -> (outcome: Result<(), Vec<RecurringScheduleOverlap>>)
        ensures
            final(self).planned@ == old(self).planned@,
            final(self).mode == old(self).mode,
            final(self).enabled == old(self).enabled,
            spec_apart(old(self).recurring@) ==> spec_apart(final(self).recurring@),
            spec_conflicts(old(self).recurring@, weekdays, start, end).len() == 0 ==> outcome is Ok
                && final(self).recurring@ == old(self).recurring@.push(
                RecurringSchedule { id, weekdays, start, end, preset },
            ),
            spec_conflicts(old(self).recurring@, weekdays, start, end).len() > 0 ==> {
                &&& final(self).recurring@ == old(self).recurring@
                &&& outcome matches Err(found)
                &&& found@ == spec_conflicts(old(self).recurring@, weekdays, start, end)
            },
    {
        let found = find_conflicts(&self.recurring, &weekdays, &start, &end);
        if found.len() == 0 {
            let schedule = RecurringSchedule { id, weekdays, start, end, preset };
            proof {
                if spec_apart(self.recurring@) {
                    lemma_creation_keeps_apart(self.recurring@, schedule);
                }
            }
            self.recurring.push(schedule);
            Ok(())
        } else {
            Err(found)
        }
    }

    /// Like [`Scheduler::create_recurring`], with an identifier made from
    /// the current time.
    pub fn schedule_recurring(
        &mut self,
        weekdays: WeekdaySet,
        start: TimeOfDay,
        end: TimeOfDay,
        preset: Preset,
    ) -> (outcome: Result<(), Vec<RecurringScheduleOverlap>>)
        ensures
            final(self).planned@ == old(self).planned@,
            final(self).mode == old(self).mode,
            final(self).enabled == old(self).enabled,
            spec_conflicts(old(self).recurring@, weekdays, start, end).len() == 0 ==> {
                &&& outcome is Ok
                &&& final(self).recurring@.len() == old(self).recurring@.len() + 1
                &&& final(self).recurring@.drop_last() == old(self).recurring@
                &&& final(self).recurring@.last().weekdays == weekdays
                &&& final(self).recurring@.last().start == start
                &&& final(self).recurring@.last().end == end
                &&& final(self).recurring@.last().preset == preset
            },
            spec_conflicts(old(self).recurring@, weekdays, start, end).len() > 0 ==> {
                &&& final(self).recurring@ == old(self).recurring@
                &&& outcome matches Err(found)
                &&& found@ == spec_conflicts(old(self).recurring@, weekdays, start, end)
            },
    {
        let id = timestamp_id();
        let outcome = self.create_recurring(id, weekdays, start, end, preset);
        proof {
            if outcome is Ok {
                assert(self.recurring@.drop_last() =~= old(self).recurring@);
            }
        }
        outcome
    }

    /// Like [`Scheduler::create_planned`], with an identifier made from the
    /// current time.
    pub fn schedule_planned(&mut self, start: Moment, end: Moment, preset: Preset)
        ensures
            final(self).planned@.len() == old(self).planned@.len() + 1,
            final(self).planned@.drop_last() == old(self).planned@,
            final(self).planned@.last().start == start,
            final(self).planned@.last().end == end,
            final(self).planned@.last().preset == preset,
            final(self).recurring@ == old(self).recurring@,
            final(self).mode == old(self).mode,
            final(self).enabled == old(self).enabled,
    {
        let id = timestamp_id();
        self.create_planned(id, start, end, preset);
        assert(self.planned@.drop_last() =~= old(self).planned@);
    }

    /// Takes the form for a new planned schedule: reads the two fields, looks
    /// the preset up and appends the schedule with a copy of it. The form is
    /// refused where a field cannot be read or no preset has the identifier;
    /// windows are not checked against each other.
    pub fn submit_planned(
        &mut self,
        presets: &PresetList,
        start_text: &str,
        end_text: &str,
        preset_id: &str,
    ) -> (outcome: Result<(), Refusal>)
        ensures
            final(self).recurring@ == old(self).recurring@,
            final(self).mode == old(self).mode,
            final(self).enabled == old(self).enabled,
            outcome == (if spec_parse_datetime(start_text@) is None {
                Err::<(), Refusal>(Refusal::Start)
            } else if spec_parse_datetime(end_text@) is None {
                Err::<(), Refusal>(Refusal::End)
            } else if forall|i: int|
                0 <= i < presets.presets@.len() ==> (#[trigger] presets.presets@[i]).id@ != preset_id@ {
                Err::<(), Refusal>(Refusal::Preset)
            } else {
                Ok::<(), Refusal>(())
            }),
            outcome is Err ==> final(self).planned@ == old(self).planned@,
            outcome is Ok ==> {
                &&& final(self).planned@.len() == old(self).planned@.len() + 1
                &&& final(self).planned@.drop_last() == old(self).planned@
                &&& final(self).planned@.last().start@ == spec_parse_datetime(start_text@).unwrap()
                &&& final(self).planned@.last().end@ == spec_parse_datetime(end_text@).unwrap()
                &&& exists|at: int|
                    {
                        &&& 0 <= at < presets.presets@.len()
                        &&& final(self).planned@.last().preset@ == (#[trigger] presets.presets@[at])@
                        &&& presets.presets@[at].id@ == preset_id@
                        &&& forall|j: int| 0 <= j < at ==> (#[trigger] presets.presets@[j]).id@ != preset_id@
                    }
            },
    {
        let start = match parse_datetime_input(start_text) {
            Some(start) => start,
            None => {
                return Err(Refusal::Start);
            },
        };
        let end = match parse_datetime_input(end_text) {
            Some(end) => end,
            None => {
                return Err(Refusal::End);
            },
        };
        let preset = match presets.find(preset_id) {
            Some(preset) => preset.clone(),
            None => {
                return Err(Refusal::Preset);
            },
        };
        self.schedule_planned(start, end, preset);
        Ok(())
    }

    /// Takes the form for a new recurring schedule: reads the two fields,
    /// looks the preset up and appends the schedule with a copy of it. The
    /// form is refused where a field cannot be read, no preset has the
    /// identifier, or the window collides with an existing schedule.
    pub fn submit_recurring(
        &mut self,
        presets: &PresetList,
        weekdays: WeekdaySet,
        start_text: &str,
        end_text: &str,
        preset_id: &str,
    ) -> (outcome: Result<(), Refusal>)
        ensures
            final(self).planned@ == old(self).planned@,
            final(self).mode == old(self).mode,
            final(self).enabled == old(self).enabled,
            outcome is Err ==> final(self).recurring@ == old(self).recurring@,
            spec_parse_clock_time(start_text@ + ":00"@) is None ==> outcome == Err::<(), Refusal>(
                Refusal::Start,
            ),
            spec_parse_clock_time(start_text@ + ":00"@) is Some && spec_parse_clock_time(
                end_text@ + ":00"@,
            ) is None ==> outcome == Err::<(), Refusal>(Refusal::End),
            spec_parse_clock_time(start_text@ + ":00"@) is Some && spec_parse_clock_time(
                end_text@ + ":00"@,
            ) is Some ==> {
                let none_has_id = forall|i: int|
                    0 <= i < presets.presets@.len() ==> (#[trigger] presets.presets@[i]).id@
                        != preset_id@;
                &&& none_has_id ==> outcome == Err::<(), Refusal>(Refusal::Preset)
                &&& !none_has_id ==> exists|start: TimeOfDay, end: TimeOfDay|
                    {
                        &&& spec_parse_clock_time(start_text@ + ":00"@) == Some(start@)
                        &&& spec_parse_clock_time(end_text@ + ":00"@) == Some(end@)
                        &&& #[trigger] spec_submitted(
                            old(self).recurring@,
                            final(self).recurring@,
                            presets.presets@,
                            preset_id@,
                            weekdays,
                            start,
                            end,
                            outcome,
                        )
                    }
            },
    {
        let start = match parse_time_input(start_text) {
            Some(start) => start,
            None => {
                return Err(Refusal::Start);
            },
        };
        let end = match parse_time_input(end_text) {
            Some(end) => end,
            None => {
                return Err(Refusal::End);
            },
        };
        let preset = match presets.find(preset_id) {
            Some(preset) => preset.clone(),
            None => {
                return Err(Refusal::Preset);
            },
        };
        let outcome = match self.schedule_recurring(weekdays, start, end, preset) {
            Ok(()) => Ok(()),
            Err(found) => Err(Refusal::Conflicts(found)),
        };
        assert(spec_submitted(
            old(self).recurring@,
            self.recurring@,
            presets.presets@,
            preset_id@,
            weekdays,
            start,
            end,
            outcome,
        ));
        outcome
    }

    /// Removes every planned schedule with the identifier `id`.
    pub fn delete_planned(&mut self, id: &str)
        ensures
            final(self).planned@ == old(self).planned@.filter(|s: PlannedSchedule| s.id@ != id@),
            final(self).recurring@ == old(self).recurring@,
            final(self).mode == old(self).mode,
            final(self).enabled == old(self).enabled,
    {
        let mut kept: Vec<PlannedSchedule> = Vec::new();
        let ghost all = self.planned@;
        let ghost others = |s: PlannedSchedule| s.id@ != id@;
        let ghost mut taken: int = 0;
        proof {
            reveal(Seq::filter);
            assert(all.subrange(0, 0) =~= Seq::<PlannedSchedule>::empty());
        }
        while self.planned.len() > 0
            invariant
                0 <= taken <= all.len(),
                others == |s: PlannedSchedule| s.id@ != id@,
                self.planned@ == all.subrange(taken, all.len() as int),
                kept@ == all.subrange(0, taken).filter(others),
                self.recurring@ == old(self).recurring@,
                self.mode == old(self).mode,
                self.enabled == old(self).enabled,
            decreases self.planned.len(),
        {
            let schedule = self.planned.remove(0);
            assert(schedule == all[taken]);
            proof {
                reveal(Seq::filter);
                let longer = all.subrange(0, taken + 1);
                assert(longer.drop_last() =~= all.subrange(0, taken));
                assert(longer.last() == schedule);
            }
            if !str_eq(schedule.id.as_str(), id) {
                kept.push(schedule);
            }
            proof {
                taken = taken + 1;
            }
            assert(self.planned@ =~= all.subrange(taken, all.len() as int));
        }
        assert(all.subrange(0, all.len() as int) =~= all);
        self.planned = kept;
    }

    /// Removes every recurring schedule with the identifier `id`.
    pub fn delete_recurring(&mut self, id: &str)
        ensures
            final(self).recurring@ == old(self).recurring@.filter(|s: RecurringSchedule| s.id@ != id@),
            final(self).planned@ == old(self).planned@,
            final(self).mode == old(self).mode,
            final(self).enabled == old(self).enabled,
    {
        let mut kept: Vec<RecurringSchedule> = Vec::new();
        let ghost all = self.recurring@;
        let ghost others = |s: RecurringSchedule| s.id@ != id@;
        let ghost mut taken: int = 0;
        proof {
            reveal(Seq::filter);
            assert(all.subrange(0, 0) =~= Seq::<RecurringSchedule>::empty());
        }
        while self.recurring.len() > 0
            invariant
                0 <= taken <= all.len(),
                others == |s: RecurringSchedule| s.id@ != id@,
                self.recurring@ == all.subrange(taken, all.len() as int),
                kept@ == all.subrange(0, taken).filter(others),
                self.planned@ == old(self).planned@,
                self.mode == old(self).mode,
                self.enabled == old(self).enabled,
            decreases self.recurring.len(),
        {
            let schedule = self.recurring.remove(0);
            assert(schedule == all[taken]);
            proof {
                reveal(Seq::filter);
                let longer = all.subrange(0, taken + 1);
                assert(longer.drop_last() =~= all.subrange(0, taken));
                assert(longer.last() == schedule);
            }
            if !str_eq(schedule.id.as_str(), id) {
                kept.push(schedule);
            }
            proof {
                taken = taken + 1;
            }
            assert(self.recurring@ =~= all.subrange(taken, all.len() as int));
        }
        assert(all.subrange(0, all.len() as int) =~= all);
        self.recurring = kept;
    }

    /// The earliest start that the form for a new planned schedule offers:
    /// one minute after the end of the last planned schedule, and `now`
    /// where there is none.
    pub fn earliest_planned_start(&self, now: &Moment) -> (earliest: Moment)
        ensures
            earliest@ == (if self.planned@.len() == 0 {
                now@
            } else {
                spec_minute_after(self.planned@.last().end@)
            }),
    {
        let n = self.planned.len();
        if n == 0 {
            *now
        } else {
            self.planned[n - 1].end.plus_minute()
        }
    }

    /// After a tick with a schedule that holds, the sequencer plays.
    pub proof fn lemma_tick_plays(self, state: SequencerState, now: LocalNow)
        requires
            self.enabled,
            self.spec_current(now) is Some,
        ensures
            self.spec_tick(state, now).0.playing,
    {
    }

    /// While the scheduler is on and at every tick some schedule holds, with
    /// nothing else touching the sequencer in between: only the first tick
    /// can load a preset and start playback, and it does so exactly where
    /// nothing played before. Every later tick changes nothing.
    pub proof fn lemma_activates_once(self, state: SequencerState, nows: Seq<LocalNow>)
        requires
            self.enabled,
            forall|k: int| 0 <= k < nows.len() ==> self.spec_current(#[trigger] nows[k]) is Some,
        ensures
            self.spec_run(state, nows).len() == nows.len(),
            nows.len() > 0 ==> (self.spec_run(state, nows)[0] is Activate <==> !state.playing),
            forall|k: int| 1 <= k < nows.len() ==> #[trigger] self.spec_run(state, nows)[k] == Tick::Keep,
            forall|k: int|
                0 <= k < nows.len() && state.playing ==> #[trigger] self.spec_run(state, nows)[k]
                    == Tick::Keep,
        decreases nows.len(),
    {
        if nows.len() > 0 {
            let next = self.spec_tick(state, nows[0]).0;
            let rest = nows.drop_first();
            assert(self.spec_current(nows[0]) is Some);
            self.lemma_tick_plays(state, nows[0]);
            assert forall|k: int| 0 <= k < rest.len() implies self.spec_current(#[trigger] rest[k]) is Some by {
                assert(rest[k] == nows[k + 1]);
            }
            self.lemma_activates_once(next, rest);
            let run = self.spec_run(state, nows);
            let tail = self.spec_run(next, rest);
            assert forall|k: int| 1 <= k < nows.len() implies #[trigger] run[k] == Tick::Keep by {
                assert(run[k] == tail[k - 1]);
            }
        }
    }
}

/// What becomes of a form for a recurring schedule whose fields were read as
/// `start` and `end` and whose preset exists: with collisions the form is
/// refused with all of them and the list stays; without, the list grows by
/// the new schedule, which holds a copy of the first preset with the
/// identifier.
pub open spec fn spec_submitted(
    before: Seq<RecurringSchedule>,
    after: Seq<RecurringSchedule>,
    presets: Seq<Preset>,
    preset_id: Seq<char>,
    weekdays: WeekdaySet,
    start: TimeOfDay,
    end: TimeOfDay,
    outcome: Result<(), Refusal>,
) -> bool {
    let conflicts = spec_conflicts(before, weekdays, start, end);
    if conflicts.len() > 0 {
        &&& after == before
        &&& outcome matches Err(Refusal::Conflicts(found))
        &&& found@ == conflicts
    } else {
        &&& outcome is Ok
        &&& after.len() == before.len() + 1
        &&& after.drop_last() == before
        &&& after.last().weekdays == weekdays
        &&& after.last().start == start
        &&& after.last().end == end
        &&& exists|at: int|
            {
                &&& 0 <= at < presets.len()
                &&& after.last().preset@ == (#[trigger] presets[at])@
                &&& presets[at].id@ == preset_id
                &&& forall|j: int| 0 <= j < at ==> (#[trigger] presets[j]).id@ != preset_id
            }
    }
}

/// The moment one minute after `secs`, held at the last moment that can be
/// counted.
pub open spec fn spec_minute_after(secs: int) -> int {
    if secs + 60 <= i64::MAX {
        secs + 60
    } else {
        i64::MAX as int
    }
}

/// The end that the form for a new planned schedule settles on: the end
/// asked for where it lies after the start, else one minute after the start.
pub fn settle_planned_end(start: &Moment, end: &Moment) -> (settled: Moment)
    ensures
        settled@ == (if start@ >= end@ {
            spec_minute_after(start@)
        } else {
            end@
        }),
{
    if start.secs >= end.secs {
        start.plus_minute()
    } else {
        *end
    }
}

/// The end that the form for a new recurring schedule settles on: the end
/// asked for where it lies after the start, else one minute after the start
/// (the minute after 23:59 being 00:00).
pub fn settle_recurring_end(start: &TimeOfDay, end: &TimeOfDay) -> (settled: TimeOfDay)
    ensures
        settled@ == (if start@ >= end@ {
            (start@ + 60) % 86_400
        } else {
            end@
        }),
{
    if start.seconds() >= end.seconds() {
        start.plus_minute()
    } else {
        *end
    }
}

/// The earliest end that the form for a new planned schedule offers for the
/// start that its first field holds: one minute later, written as the field
/// takes it. There is none where the field holds no moment.
pub fn planned_end_floor(start_text: &str) -> (floor: Option<String>)
    ensures
        floor is Some == (spec_parse_datetime(start_text@) matches Some(start)
            && spec_format_datetime_input(spec_minute_after(start)) is Some),
        floor matches Some(text) ==> spec_format_datetime_input(
            spec_minute_after(spec_parse_datetime(start_text@).unwrap()),
        ) == Some(text@),
{
    match parse_datetime_input(start_text) {
        Some(start) => format_datetime_input(&start.plus_minute()),
        None => None,
    }
}

/// The earliest end that the form for a new recurring schedule offers for
/// the start that its first field holds: one minute later, as hours and
/// minutes. There is none where the field holds no time.
pub fn recurring_end_floor(start_text: &str) -> (floor: Option<String>)
    ensures
        floor is Some == spec_parse_clock_time(start_text@ + ":00"@) is Some,
        floor matches Some(text) ==> text@ == spec_format_time(
            (spec_parse_clock_time(start_text@ + ":00"@).unwrap() + 60) % 86_400,
        ),
{
    match parse_time_input(start_text) {
        Some(start) => Some(format_time(&start.plus_minute())),
        None => None,
    }
}

} // verus!
