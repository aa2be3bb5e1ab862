//! The weekly grid: five days, two shifts per day, an hour count per slot,
//! and the roster of workers to place on it. The extractor turns the roster
//! into the two structures the formulator consumes: a worker x day x shift
//! preference matrix and a per-worker remaining-hours balance.
use crate::model::{MAX_HOURS_VALUE, MAX_VARIABLES};
use crate::person::{Person, Preference};
use crate::scheduler::{
    coverage_group, hour_bounds_group, ConstraintType, Scheduler, SchedulingError,
};
use vstd::prelude::*;

verus! {

/// Days of the working week, in index order 0..4.
#[derive(Copy, Clone, PartialEq, Eq, Structural, Debug)]
pub enum Day {
    Mon,
    Tue,
    Wed,
    Thu,
    Fri,
}

impl Day {
    /// Ordinal used as an array index.
    pub open spec fn index_spec(self) -> int {
        match self {
            Day::Mon => 0,
            Day::Tue => 1,
            Day::Wed => 2,
            Day::Thu => 3,
            Day::Fri => 4,
        }
    }

    pub fn index(&self) -> (i: usize)
        ensures
            i == self.index_spec(),
            i < 5,
    {
        match self {
            Day::Mon => 0,
            Day::Tue => 1,
            Day::Wed => 2,
            Day::Thu => 3,
            Day::Fri => 4,
        }
    }

    /// Three-letter tag of the day.
    pub open spec fn name_spec(self) -> Seq<char> {
        match self {
            Day::Mon => "MON"@,
            Day::Tue => "TUE"@,
            Day::Wed => "WED"@,
            Day::Thu => "THU"@,
            Day::Fri => "FRI"@,
        }
    }

    pub fn name(&self) -> (s: &'static str)
        ensures
            s@ == self.name_spec(),
    {
        match self {
            Day::Mon => "MON",
            Day::Tue => "TUE",
            Day::Wed => "WED",
            Day::Thu => "THU",
            Day::Fri => "FRI",
        }
    }
}

/// The two daily shifts, in index order 0..1.
#[derive(Copy, Clone, PartialEq, Eq, Structural, Debug)]
pub enum Turn {
    Morning,
    Afternoon,
}

impl Turn {
    /// Ordinal used as an array index.
    pub open spec fn index_spec(self) -> int {
        match self {
            Turn::Morning => 0,
            Turn::Afternoon => 1,
        }
    }

    pub fn index(&self) -> (i: usize)
        ensures
            i == self.index_spec(),
            i < 2,
    {
        match self {
            Turn::Morning => 0,
            Turn::Afternoon => 1,
        }
    }
}

/// Length in whole hours of one shift slot.
#[derive(Copy, Clone, PartialEq, Eq, Structural, Debug)]
pub struct TurnHours(pub i64);

/// Hour pair of the default table for day `d`: mornings last 4 hours,
/// afternoons 6 hours except 5 on Friday.
pub open spec fn default_turnhours(d: int) -> (int, int) {
    if d == 4 {
        (4, 5)
    } else {
        (4, 6)
    }
}

/// The weekly schedule configuration: per-day hour table and roster.
pub struct Timetable {
    /// Hours of (morning, afternoon) for each of the five days.
    pub base: Vec<(TurnHours, TurnHours)>,
    /// The workers to schedule, with their preferences.
    pub people: Vec<Person>,
}

impl Timetable {
    /// Well-formedness: a full five-day table with hour values in range,
    /// every worker's hour fields in range, and a roster small enough for
    /// the variable index.
    pub open spec fn wf(self) -> bool {
        &&& self.base.len() == 5
        &&& forall|d: int|
            0 <= d < 5 ==> {
                &&& 0 <= (#[trigger] self.base[d]).0.0 <= MAX_HOURS_VALUE
                &&& 0 <= self.base[d].1.0 <= MAX_HOURS_VALUE
            }
        &&& forall|i: int|
            0 <= i < self.people.len() ==> (#[trigger] self.people[i]).hours_in_range()
        &&& self.people.len() * 10 <= MAX_VARIABLES
    }

    /// The default table holds the default hour values.
    pub open spec fn has_default_base(self) -> bool {
        &&& self.base.len() == 5
        &&& forall|d: int|
            0 <= d < 5 ==> {
                &&& (#[trigger] self.base[d]).0.0 == default_turnhours(d).0
                &&& self.base[d].1.0 == default_turnhours(d).1
            }
    }

    pub fn new() -> (r: Self)
        ensures
            r.has_default_base(),
            r.people@.len() == 0,
            r.wf(),
    {
        Self::default()
    }

    pub fn with_turnhours(base: &[(TurnHours, TurnHours)]) -> (r: Self)
        ensures
            r.base@ == base@,
            r.people@.len() == 0,
    {
        let mut copied: Vec<(TurnHours, TurnHours)> = Vec::new();
        let mut d: usize = 0;
        while d < base.len()
            invariant
                0 <= d <= base.len(),
                copied@ =~= base@.subrange(0, d as int),
            decreases base.len() - d,
        {
            copied.push(base[d]);
            d = d + 1;
        }
        proof {
            assert(copied@ =~= base@);
        }
        Self { base: copied, people: Vec::new() }
    }

    pub fn add_person(&mut self, p: Person)
        ensures
            final(self).people@ == old(self).people@.push(p),
            final(self).base == old(self).base,
    {
        self.people.push(p);
    }

    /// Replaces the whole roster; it does not append.
    pub fn add_people(&mut self, people: Vec<Person>)
        ensures
            final(self).people == people,
            final(self).base == old(self).base,
    {
        self.people = people;
    }

    pub fn set_turnhours(&mut self, turnhours: Vec<(TurnHours, TurnHours)>)
        ensures
            final(self).base == turnhours,
            final(self).people == old(self).people,
    {
        self.base = turnhours;
    }
}

impl Default for Timetable {
    /// The default configuration: default hour table, empty roster.
    fn default() -> (r: Self)
        ensures
            r.has_default_base(),
            r.people@.len() == 0,
            r.wf(),
    {
        let mut base: Vec<(TurnHours, TurnHours)> = Vec::new();
        base.push((TurnHours(4), TurnHours(6)));
        base.push((TurnHours(4), TurnHours(6)));
        base.push((TurnHours(4), TurnHours(6)));
        base.push((TurnHours(4), TurnHours(6)));
        base.push((TurnHours(4), TurnHours(5)));
        Timetable { base, people: Vec::new() }
    }
}

/// Whether the preference list claims the slot (day `d`, shift `s`).
pub open spec fn prefers(prefs: Seq<Preference>, d: int, s: int) -> bool {
    exists|k: int|
        0 <= k < prefs.len() && (#[trigger] prefs[k]).day.index_spec() == d
            && prefs[k].turn.index_spec() == s
}

/// Linear scan for a preference naming the slot (day `d`, shift `s`).
fn person_prefers(prefs: &Vec<Preference>, d: usize, s: usize) -> (r: bool)
    ensures
        r == prefers(prefs@, d as int, s as int),
{
    let mut k: usize = 0;
    while k < prefs.len()
        invariant
            0 <= k <= prefs.len(),
            forall|p: int|
                0 <= p < k ==> !((#[trigger] prefs@[p]).day.index_spec() == d
                    && prefs@[p].turn.index_spec() == s),
        decreases prefs.len() - k,
    {
        let pd = prefs[k].day.index();
        let ps = prefs[k].turn.index();
        if pd == d && ps == s {
            return true;
        }
        k = k + 1;
    }
    false
}

impl Timetable {
    /// The extractor: one boolean preference matrix entry per
    /// (worker, day, shift) triple of the five-day, two-shift grid, and the
    /// remaining-hours balance of each worker. Because the roster's
    /// preferences are typed (day, shift) pairs, every one of them lies on
    /// the grid and no preference can be rejected here.
    pub fn get_people_preferences_and_rem_hours(&self) -> (r: (Vec<Vec<Vec<bool>>>, Vec<i64>))
        requires
            forall|i: int|
                0 <= i < self.people.len() ==> (#[trigger] self.people[i]).hours_in_range(),
        ensures
            r.0@.len() == self.people.len(),
            r.1@.len() == self.people.len(),
            forall|i: int|
                0 <= i < self.people.len() ==> #[trigger] r.1@[i]
                    == self.people[i].remaining_spec(),
            forall|i: int|
                0 <= i < self.people.len() ==> (#[trigger] r.0@[i])@.len() == 5,
            forall|i: int, d: int|
                0 <= i < self.people.len() && 0 <= d < 5 ==> (#[trigger] r.0@[i]@[d])@.len() == 2,
            forall|i: int, d: int, s: int|
                0 <= i < self.people.len() && 0 <= d < 5 && 0 <= s < 2 ==> #[trigger] r.0@[i]@[d]@[s]
                    == prefers(self.people[i].preferences@, d, s),
    {
        let mut matrix: Vec<Vec<Vec<bool>>> = Vec::new();
        let mut rem: Vec<i64> = Vec::new();
        let mut i: usize = 0;
        while i < self.people.len()
            invariant
                0 <= i <= self.people.len(),
                forall|p: int|
                    0 <= p < self.people.len() ==> (#[trigger] self.people[p]).hours_in_range(),
                matrix@.len() == i,
                rem@.len() == i,
                forall|p: int|
                    0 <= p < i ==> #[trigger] rem@[p] == self.people[p].remaining_spec(),
                forall|p: int| 0 <= p < i ==> (#[trigger] matrix@[p])@.len() == 5,
                forall|p: int, d: int|
                    0 <= p < i && 0 <= d < 5 ==> (#[trigger] matrix@[p]@[d])@.len() == 2,
                forall|p: int, d: int, s: int|
                    0 <= p < i && 0 <= d < 5 && 0 <= s < 2 ==> #[trigger] matrix@[p]@[d]@[s]
                        == prefers(self.people[p].preferences@, d, s),
            decreases self.people.len() - i,
        {
            let person = &self.people[i];
            let mut grid: Vec<Vec<bool>> = Vec::new();
            let mut d: usize = 0;
            while d < 5
                invariant
                    0 <= d <= 5,
                    grid@.len() == d,
                    forall|q: int| 0 <= q < d ==> (#[trigger] grid@[q])@.len() == 2,
                    forall|q: int, s: int|
                        0 <= q < d && 0 <= s < 2 ==> #[trigger] grid@[q]@[s] == prefers(
                            person.preferences@,
                            q,
                            s,
                        ),
                decreases 5 - d,
            {
                let mut row: Vec<bool> = Vec::new();
                row.push(person_prefers(&person.preferences, d, 0));
                row.push(person_prefers(&person.preferences, d, 1));
                grid.push(row);
                d = d + 1;
            }
            matrix.push(grid);
            rem.push(person.tot_hours - person.worked_hours);
            i = i + 1;
        }
        (matrix, rem)
    }

    /// Formulates the default weekly problem for the current roster: a fresh
    /// formulator holding the extracted preferences and balances, the
    /// coverage family, and hour bounds of [1, 12] per worker. Because the
    /// roster's preferences are typed, no preference can be invalid and
    /// formulation always succeeds; solving and decoding follow separately.
    pub fn calc(&self) -> (r: Result<Scheduler, SchedulingError>)
        requires
            self.wf(),
        ensures
            r is Ok,
            r matches Ok(s) ==> {
                &&& s.num_workers == self.people.len()
                &&& s.num_days == 5
                &&& s.num_shifts == 2
                &&& s.max_hours_per_week == 12
                &&& s.min_hours_per_week == 1
                &&& s.data_wf()
                &&& s.vars_wf()
                &&& s.constraints_wf()
                &&& forall|i: int|
                    0 <= i < self.people.len() ==> #[trigger] s.rem_hours[i]
                        == self.people[i].remaining_spec()
                &&& forall|i: int, d: int, sl: int|
                    0 <= i < self.people.len() && 0 <= d < 5 && 0 <= sl < 2
                        ==> #[trigger] s.preferences[i]@[d]@[sl] == prefers(
                        self.people[i].preferences@,
                        d,
                        sl,
                    )
                &&& forall|d: int|
                    0 <= d < 5 ==> {
                        &&& (#[trigger] s.turn_hours[d])@[0] == self.base[d].0.0
                        &&& s.turn_hours[d]@[1] == self.base[d].1.0
                    }
                &&& s.constraints@.len() == 2
                &&& coverage_group(s.constraints@[0]@, self.people.len() as int, 5, 2)
                &&& hour_bounds_group(
                    s.constraints@[1]@,
                    s.turn_hours@,
                    1,
                    12,
                    self.people.len() as int,
                    5,
                    2,
                )
            },
    {
        let mut scheduler = Scheduler::new(12, 1, self.people.len(), 5, 2);
        scheduler.setup(self);
        scheduler.set_constraint(ConstraintType::MaxOnePersonPerShift);
        scheduler.set_constraint(ConstraintType::MinMaxWeekHoursPerPerson(1, 12));
        Ok(scheduler)
    }
}

} // verus!
