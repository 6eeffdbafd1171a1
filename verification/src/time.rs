//! Days of the week, sets of them, times of day and moments: the plain
//! values that schedules are made of and matched against.

use vstd::prelude::*;
use vstd::string::*;

verus! {

/// Seconds in a day.
pub const SECONDS_PER_DAY: u32 = 86_400;

/// A day of the week.
#[derive(Debug, Clone, Copy, PartialEq, Eq, Hash, Structural)]
pub enum Weekday {
    Mon,
    Tue,
    Wed,
    Thu,
    Fri,
    Sat,
    Sun,
}

impl Weekday {
    /// Days since Monday.
    pub open spec fn spec_index(self) -> nat {
        match self {
            Weekday::Mon => 0,
            Weekday::Tue => 1,
            Weekday::Wed => 2,
            Weekday::Thu => 3,
            Weekday::Fri => 4,
            Weekday::Sat => 5,
            Weekday::Sun => 6,
        }
    }

    /// The day that lies `index` days after Monday, for `index` below 7.
    pub open spec fn spec_from_index(index: int) -> Weekday {
        if index == 0 {
            Weekday::Mon
        } else if index == 1 {
            Weekday::Tue
        } else if index == 2 {
            Weekday::Wed
        } else if index == 3 {
            Weekday::Thu
        } else if index == 4 {
            Weekday::Fri
        } else if index == 5 {
            Weekday::Sat
        } else {
            Weekday::Sun
        }
    }

    /// The short label under which listings show the day.
    pub open spec fn spec_short(self) -> Seq<char> {
        match self {
            Weekday::Mon => "M"@,
            Weekday::Tue => "Tu"@,
            Weekday::Wed => "W"@,
            Weekday::Thu => "Th"@,
            Weekday::Fri => "F"@,
            Weekday::Sat => "Sa"@,
            Weekday::Sun => "Su"@,
        }
    }

    /// Days since Monday.
    pub fn num_days_from_monday(&self) -> (index: u32)
        ensures
            index == self.spec_index(),
            index < 7,
    {
        match self {
            Weekday::Mon => 0,
            Weekday::Tue => 1,
            Weekday::Wed => 2,
            Weekday::Thu => 3,
            Weekday::Fri => 4,
            Weekday::Sat => 5,
            Weekday::Sun => 6,
        }
    }

    /// The day that lies `index` days after Monday; none for 7 and more.
    pub fn from_index(index: u32) -> (day: Option<Weekday>)
        ensures
            day == (if index < 7 {
                Some(Weekday::spec_from_index(index as int))
            } else {
                None
            }),
            day matches Some(d) ==> d.spec_index() == index,
    {
        if index == 0 {
            Some(Weekday::Mon)
        } else if index == 1 {
            Some(Weekday::Tue)
        } else if index == 2 {
            Some(Weekday::Wed)
        } else if index == 3 {
            Some(Weekday::Thu)
        } else if index == 4 {
            Some(Weekday::Fri)
        } else if index == 5 {
            Some(Weekday::Sat)
        } else if index == 6 {
            Some(Weekday::Sun)
        } else {
            None
        }
    }

    /// The short label of the day: `M`, `Tu`, `W`, `Th`, `F`, `Sa`, `Su`.
    pub fn short_label(&self) -> (label: String)
        ensures
            label@ == self.spec_short(),
    {
        match self {
            Weekday::Mon => String::from_str("M"),
            Weekday::Tue => String::from_str("Tu"),
            Weekday::Wed => String::from_str("W"),
            Weekday::Thu => String::from_str("Th"),
            Weekday::Fri => String::from_str("F"),
            Weekday::Sat => String::from_str("Sa"),
            Weekday::Sun => String::from_str("Su"),
        }
    }

    /// A day is the day that lies its own index after Monday.
    pub proof fn lemma_index_round_trip(day: Weekday)
        ensures
            day.spec_index() < 7,
            Weekday::spec_from_index(day.spec_index() as int) == day,
    {
    }
}

/// A set of days of the week.
#[derive(Debug, Clone, Copy, PartialEq, Eq, Structural)]
pub struct WeekdaySet {
    pub mon: bool,
    pub tue: bool,
    pub wed: bool,
    pub thu: bool,
    pub fri: bool,
    pub sat: bool,
    pub sun: bool,
}

impl View for WeekdaySet {
    type V = Set<Weekday>;

    open spec fn view(&self) -> Set<Weekday> {
        Set::new(|d: Weekday| self.spec_contains(d))
    }
}

impl WeekdaySet {
    /// Whether the day is in the set.
    pub open spec fn spec_contains(self, day: Weekday) -> bool {
        match day {
            Weekday::Mon => self.mon,
            Weekday::Tue => self.tue,
            Weekday::Wed => self.wed,
            Weekday::Thu => self.thu,
            Weekday::Fri => self.fri,
            Weekday::Sat => self.sat,
            Weekday::Sun => self.sun,
        }
    }

    /// The days of the set among the first `n` days of the week, Monday
    /// first.
    pub open spec fn spec_days_upto(self, n: int) -> Seq<Weekday>
        decreases n,
    {
        if n <= 0 {
            Seq::empty()
        } else {
            let before = self.spec_days_upto(n - 1);
            let day = Weekday::spec_from_index(n - 1);
            if self.spec_contains(day) {
                before.push(day)
            } else {
                before
            }
        }
    }

    /// The days of the set in the order of the week, Monday first.
    pub open spec fn spec_days(self) -> Seq<Weekday> {
        self.spec_days_upto(7)
    }

    /// The set without a day.
    pub fn empty() -> (set: WeekdaySet)
        ensures
            set@ == Set::<Weekday>::empty(),
            forall|d: Weekday| !set.spec_contains(d),
    {
        let set = WeekdaySet {
            mon: false,
            tue: false,
            wed: false,
            thu: false,
            fri: false,
            sat: false,
            sun: false,
        };
        assert(set@ =~= Set::<Weekday>::empty());
        set
    }

    /// The set of all seven days.
    pub fn full() -> (set: WeekdaySet)
        ensures
            set@ == Set::<Weekday>::full(),
            forall|d: Weekday| set.spec_contains(d),
    {
        let set = WeekdaySet {
            mon: true,
            tue: true,
            wed: true,
            thu: true,
            fri: true,
            sat: true,
            sun: true,
        };
        assert(set@ =~= Set::<Weekday>::full());
        set
    }

    /// Whether the day is in the set.
    pub fn contains(&self, day: Weekday) -> (found: bool)
        ensures
            found == self@.contains(day),
            found == self.spec_contains(day),
    {
        match day {
            Weekday::Mon => self.mon,
            Weekday::Tue => self.tue,
            Weekday::Wed => self.wed,
            Weekday::Thu => self.thu,
            Weekday::Fri => self.fri,
            Weekday::Sat => self.sat,
            Weekday::Sun => self.sun,
        }
    }

    /// The set with `day` put in or taken out, as `present` says.
    pub open spec fn spec_with(self, day: Weekday, present: bool) -> WeekdaySet {
        match day {
            Weekday::Mon => WeekdaySet { mon: present, ..self },
            Weekday::Tue => WeekdaySet { tue: present, ..self },
            Weekday::Wed => WeekdaySet { wed: present, ..self },
            Weekday::Thu => WeekdaySet { thu: present, ..self },
            Weekday::Fri => WeekdaySet { fri: present, ..self },
            Weekday::Sat => WeekdaySet { sat: present, ..self },
            Weekday::Sun => WeekdaySet { sun: present, ..self },
        }
    }

    fn set_day(&mut self, day: Weekday, present: bool)
        ensures
            *final(self) == old(self).spec_with(day, present),
            final(self)@ == (if present {
                old(self)@.insert(day)
            } else {
                old(self)@.remove(day)
            }),
    {
        match day {
            Weekday::Mon => self.mon = present,
            Weekday::Tue => self.tue = present,
            Weekday::Wed => self.wed = present,
            Weekday::Thu => self.thu = present,
            Weekday::Fri => self.fri = present,
            Weekday::Sat => self.sat = present,
            Weekday::Sun => self.sun = present,
        }
        assert(self@ =~= (if present {
            old(self)@.insert(day)
        } else {
            old(self)@.remove(day)
        }));
    }

    /// Puts the day into the set.
    pub fn insert(&mut self, day: Weekday)
        ensures
            final(self)@ == old(self)@.insert(day),
    {
        self.set_day(day, true);
    }

    /// Takes the day out of the set.
    pub fn remove(&mut self, day: Weekday)
        ensures
            final(self)@ == old(self)@.remove(day),
    {
        self.set_day(day, false);
    }

    /// Takes the day out if it is in the set, and puts it in if it is not.
    pub fn toggle(&mut self, day: Weekday)
        ensures
            final(self)@ == (if old(self)@.contains(day) {
                old(self)@.remove(day)
            } else {
                old(self)@.insert(day)
            }),
    {
        let present = self.contains(day);
        self.set_day(day, !present);
    }

    /// A click on a day's button in the week row: a day that was selected is
    /// taken out, a day that was not is put in.
    pub fn press(&mut self, day: Weekday, selected: bool)
        ensures
            final(self)@ == (if selected {
                old(self)@.remove(day)
            } else {
                old(self)@.insert(day)
            }),
    {
        self.set_day(day, !selected);
    }

    /// The set of the given days.
    pub fn from_days(days: &[Weekday]) -> (set: WeekdaySet)
        ensures
            set@ == days@.to_set(),
    {
        let mut set = WeekdaySet::empty();
        let mut i: usize = 0;
        while i < days.len()
            invariant
                i <= days.len(),
                set@ == days@.subrange(0, i as int).to_set(),
            decreases days.len() - i,
        {
            set.insert(days[i]);
            i += 1;
            assert(set@ =~= days@.subrange(0, i as int).to_set()) by {
                let before = days@.subrange(0, i - 1);
                let now = days@.subrange(0, i as int);
                assert(now =~= before.push(days@[i - 1]));
                assert forall|d: Weekday| now.to_set().contains(d) <==> before.to_set().insert(
                    days@[i - 1],
                ).contains(d) by {
                    if now.contains(d) {
                        let k = choose|k: int| 0 <= k < now.len() && now[k] == d;
                        if k < i - 1 {
                            assert(before[k] == d);
                        }
                    }
                    if before.contains(d) {
                        let k = choose|k: int| 0 <= k < before.len() && before[k] == d;
                        assert(now[k] == d);
                    }
                    assert(now[i - 1] == days@[i - 1]);
                }
            }
        }
        assert(days@.subrange(0, days@.len() as int) =~= days@);
        set
    }

    /// The days that are in both sets.
    pub open spec fn spec_intersect(self, other: WeekdaySet) -> WeekdaySet {
        WeekdaySet {
            mon: self.mon && other.mon,
            tue: self.tue && other.tue,
            wed: self.wed && other.wed,
            thu: self.thu && other.thu,
            fri: self.fri && other.fri,
            sat: self.sat && other.sat,
            sun: self.sun && other.sun,
        }
    }

    /// Whether the set holds no day.
    pub open spec fn spec_is_empty(self) -> bool {
        !(self.mon || self.tue || self.wed || self.thu || self.fri || self.sat || self.sun)
    }

    /// The days that are in both sets.
    pub fn intersect(&self, other: &WeekdaySet) -> (both: WeekdaySet)
        ensures
            both == self.spec_intersect(*other),
            both@ == self@.intersect(other@),
    {
        let both = WeekdaySet {
            mon: self.mon && other.mon,
            tue: self.tue && other.tue,
            wed: self.wed && other.wed,
            thu: self.thu && other.thu,
            fri: self.fri && other.fri,
            sat: self.sat && other.sat,
            sun: self.sun && other.sun,
        };
        assert(both@ =~= self@.intersect(other@));
        both
    }

    /// Whether the set holds no day.
    pub fn is_empty(&self) -> (none: bool)
        ensures
            none == self.spec_is_empty(),
            none == (self@ == Set::<Weekday>::empty()),
    {
        let none = !(self.mon || self.tue || self.wed || self.thu || self.fri || self.sat
            || self.sun);
        proof {
            if none {
                assert(self@ =~= Set::<Weekday>::empty());
            } else {
                let d = if self.mon {
                    Weekday::Mon
                } else if self.tue {
                    Weekday::Tue
                } else if self.wed {
                    Weekday::Wed
                } else if self.thu {
                    Weekday::Thu
                } else if self.fri {
                    Weekday::Fri
                } else if self.sat {
                    Weekday::Sat
                } else {
                    Weekday::Sun
                };
                assert(self.spec_contains(d));
                assert(self@.contains(d));
            }
        }
        none
    }

    /// The days of the set in the order of the week, Monday first.
    pub fn to_vec(&self) -> (days: Vec<Weekday>)
        ensures
            days@ == self.spec_days(),
    {
        let mut days: Vec<Weekday> = Vec::new();
        let mut i: u32 = 0;
        while i < 7
            invariant
                i <= 7,
                days@ == self.spec_days_upto(i as int),
            decreases 7 - i,
        {
            match Weekday::from_index(i) {
                Some(day) => {
                    if self.contains(day) {
                        days.push(day);
                    }
                },
                None => {},
            }
            i += 1;
        }
        days
    }

    /// The listed days are the days of the set, each once, in the order of
    /// the week.
    pub proof fn lemma_days(self, n: int)
        requires
            0 <= n <= 7,
        ensures
            forall|d: Weekday|
                self.spec_days_upto(n).contains(d) <==> (self.spec_contains(d) && d.spec_index() < n),
            forall|i: int, j: int|
                0 <= i < j < self.spec_days_upto(n).len() ==> self.spec_days_upto(n)[i].spec_index()
                    < self.spec_days_upto(n)[j].spec_index(),
            forall|i: int|
                0 <= i < self.spec_days_upto(n).len() ==> (#[trigger] self.spec_days_upto(
                    n,
                )[i]).spec_index() < n,
        decreases n,
    {
        if n > 0 {
            self.lemma_days(n - 1);
            let before = self.spec_days_upto(n - 1);
            let day = Weekday::spec_from_index(n - 1);
            let now = self.spec_days_upto(n);
            assert(day.spec_index() == n - 1);
            assert forall|d: Weekday| now.contains(d) <==> (self.spec_contains(d) && d.spec_index()
                < n) by {
                Weekday::lemma_index_round_trip(d);
                if self.spec_contains(day) {
                    assert(now == before.push(day));
                    if now.contains(d) {
                        let k = choose|k: int| 0 <= k < now.len() && now[k] == d;
                        if k < before.len() {
                            assert(before[k] == d);
                            assert(before.contains(d));
                        }
                    }
                    if self.spec_contains(d) && d.spec_index() < n {
                        if d.spec_index() < n - 1 {
                            assert(before.contains(d));
                            let k = choose|k: int| 0 <= k < before.len() && before[k] == d;
                            assert(now[k] == d);
                        } else {
                            assert(d == day);
                            assert(now[now.len() - 1] == d);
                        }
                    }
                } else {
                    assert(now == before);
                }
            }
        }
    }
}

/// The short labels of the days, in the order of the week: `M`, `Tu`, `W`,
/// `Th`, `F`, `Sa`, `Su`.
pub fn weekdays_to_sorted_vec(weekdays: WeekdaySet) -> (labels: Vec<String>)
    ensures
        labels@.map_values(|l: String| l@) == weekdays.spec_days().map_values(
            |d: Weekday| d.spec_short(),
        ),
{
    let days = weekdays.to_vec();
    let mut labels: Vec<String> = Vec::new();
    let mut i: usize = 0;
    while i < days.len()
        invariant
            i <= days.len(),
            days@ == weekdays.spec_days(),
            labels@.len() == i,
            labels@.map_values(|l: String| l@) == days@.subrange(0, i as int).map_values(
                |d: Weekday| d.spec_short(),
            ),
        decreases days.len() - i,
    {
        let ghost before = labels@;
        let label = days[i].short_label();
        labels.push(label);
        i += 1;
        proof {
            let shown = labels@.map_values(|l: String| l@);
            let wanted = days@.subrange(0, i as int).map_values(|d: Weekday| d.spec_short());
            let shown_before = before.map_values(|l: String| l@);
            let wanted_before = days@.subrange(0, i - 1).map_values(|d: Weekday| d.spec_short());
            assert(shown_before == wanted_before);
            assert forall|k: int| 0 <= k < i implies shown[k] == wanted[k] by {
                if k < i - 1 {
                    assert(labels@[k] == before[k]);
                    assert(shown_before[k] == wanted_before[k]);
                }
            }
            assert(shown =~= wanted);
        }
    }
    assert(days@.subrange(0, days@.len() as int) =~= days@);
    labels
}

/// A time of day, to the second.
#[derive(Debug, Clone, Copy, PartialEq, Eq, Structural)]
pub struct TimeOfDay {
    secs: u32,
}

impl View for TimeOfDay {
    type V = nat;

    /// Seconds since midnight.
    closed spec fn view(&self) -> nat {
        self.secs as nat
    }
}

impl TimeOfDay {
    #[verifier::type_invariant]
    spec fn in_day(self) -> bool {
        self.secs < SECONDS_PER_DAY
    }

    /// Midnight, the first second of the day.
    pub fn midnight() -> (time: TimeOfDay)
        ensures
            time@ == 0,
    {
        TimeOfDay { secs: 0 }
    }

    /// The time that lies `secs` seconds after midnight; none where that is
    /// a day or more.
    pub fn from_seconds(secs: u32) -> (time: Option<TimeOfDay>)
        ensures
            time is Some <==> secs < SECONDS_PER_DAY,
            time matches Some(t) ==> t@ == secs,
    {
        if secs < SECONDS_PER_DAY {
            Some(TimeOfDay { secs })
        } else {
            None
        }
    }

    /// The time from hour, minute and second; none where one of them is out
    /// of its range.
    pub fn from_hms(hour: u32, minute: u32, second: u32) -> (time: Option<TimeOfDay>)
        ensures
            time is Some <==> (hour < 24 && minute < 60 && second < 60),
            time matches Some(t) ==> t@ == hour * 3600 + minute * 60 + second,
    {
        if hour < 24 && minute < 60 && second < 60 {
            Some(TimeOfDay { secs: hour * 3600 + minute * 60 + second })
        } else {
            None
        }
    }

    /// Seconds since midnight.
    pub fn seconds(&self) -> (secs: u32)
        ensures
            secs == self@,
            secs < SECONDS_PER_DAY,
    {
        proof {
            use_type_invariant(self);
        }
        self.secs
    }

    /// The time one minute later; the minute after 23:59 is 00:00.
    pub fn plus_minute(&self) -> (later: TimeOfDay)
        ensures
            later@ == (self@ + 60) % (SECONDS_PER_DAY as nat),
    {
        proof {
            use_type_invariant(self);
        }
        TimeOfDay { secs: (self.secs + 60) % SECONDS_PER_DAY }
    }
}

/// A moment of the local calendar, counted in seconds from the start of 1970
/// on the wall clock.
#[derive(Debug, Clone, Copy, PartialEq, Eq, Structural)]
pub struct Moment {
    pub secs: i64,
}

impl View for Moment {
    type V = int;

    open spec fn view(&self) -> int {
        self.secs as int
    }
}

impl Moment {
    /// The moment one minute later; the last moments that the count can hold
    /// stay where they are.
    pub fn plus_minute(&self) -> (later: Moment)
        ensures
            later@ == (if self@ + 60 <= i64::MAX { self@ + 60 } else { i64::MAX as int }),
    {
        if self.secs <= i64::MAX - 60 {
            Moment { secs: self.secs + 60 }
        } else {
            Moment { secs: i64::MAX }
        }
    }
}

/// One reading of the local wall clock.
#[derive(Debug, Clone, Copy, PartialEq, Eq, Structural)]
pub struct LocalNow {
    pub moment: Moment,
    pub weekday: Weekday,
    pub time: TimeOfDay,
}

} // verus!
