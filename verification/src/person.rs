//! Workers and their shift preferences. A worker carries a period hour
//! quota (`tot_hours`) and the hours already accrued before the period
//! (`worked_hours`); both are whole hour counts. The derived remaining
//! balance may be negative when a worker is over quota.
use crate::model::MAX_HOURS_VALUE;
use crate::timetable::{Day, Turn};
use vstd::prelude::*;
use vstd::string::*;

verus! {

/// A (day, shift) slot a worker wants to be considered for.
#[derive(Copy, Clone)]
pub struct Preference {
    pub day: Day,
    pub turn: Turn,
}

impl Preference {
    pub fn new(day: Day, turn: Turn) -> (r: Self)
        ensures
            r.day == day,
            r.turn == turn,
    {
        Self { day, turn }
    }
}

/// A worker: identity, preference set, hour quota and accrued hours.
pub struct Person {
    pub name: String,
    pub surname: String,
    pub preferences: Vec<Preference>,
    pub tot_hours: i64,
    pub worked_hours: i64,
}

impl Person {
    /// Remaining balance: quota minus accrued hours; negative when over quota.
    pub open spec fn remaining_spec(self) -> int {
        self.tot_hours - self.worked_hours
    }

    /// Both hour fields lie within the model's accepted range.
    pub open spec fn hours_in_range(self) -> bool {
        &&& -MAX_HOURS_VALUE <= self.tot_hours <= MAX_HOURS_VALUE
        &&& -MAX_HOURS_VALUE <= self.worked_hours <= MAX_HOURS_VALUE
    }

    pub fn new(name: &str, surname: &str) -> (r: Self)
        ensures
            r.name@ == name@,
            r.surname@ == surname@,
            r.preferences@.len() == 0,
            r.tot_hours == 150,
            r.worked_hours == 0,
    {
        Self {
            name: name.to_owned(),
            surname: surname.to_owned(),
            preferences: Vec::new(),
            tot_hours: 150,
            worked_hours: 0,
        }
    }

    pub fn with_preferences(
        name: &str,
        surname: &str,
        preferences: Vec<Preference>,
        worked_hours: i64,
    ) -> (r: Self)
        ensures
            r.name@ == name@,
            r.surname@ == surname@,
            r.preferences == preferences,
            r.tot_hours == 150,
            r.worked_hours == worked_hours,
    {
        Self {
            name: name.to_owned(),
            surname: surname.to_owned(),
            preferences,
            tot_hours: 150,
            worked_hours,
        }
    }

    pub fn with_all(
        name: &str,
        surname: &str,
        preferences: Vec<Preference>,
        worked_hours: i64,
        tot_hours: i64,
    ) -> (r: Self)
        ensures
            r.name@ == name@,
            r.surname@ == surname@,
            r.preferences == preferences,
            r.tot_hours == tot_hours,
            r.worked_hours == worked_hours,
    {
        Self {
            name: name.to_owned(),
            surname: surname.to_owned(),
            preferences,
            tot_hours,
            worked_hours,
        }
    }

    /// Short tag for the worker: first two characters of the name followed
    /// by the first two of the surname.
    pub fn acronym(&self) -> (r: String)
        requires
            self.name@.len() >= 2,
            self.surname@.len() >= 2,
        ensures
            r@ == self.name@.subrange(0, 2) + self.surname@.subrange(0, 2),
    {
        let head = self.name.as_str().substring_char(0, 2);
        let tail = self.surname.as_str().substring_char(0, 2);
        let mut r = String::from_str(head);
        r.append(tail);
        r
    }
}

} // verus!
