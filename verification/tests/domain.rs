use shift_roster::person::{Person, Preference};
use shift_roster::scheduler::{encode_preferences, SchedulingError};
use shift_roster::timetable::{Day, Timetable, Turn, TurnHours};

#[test]
fn day_indices_and_names() {
    assert_eq!(Day::Mon.index(), 0);
    assert_eq!(Day::Tue.index(), 1);
    assert_eq!(Day::Wed.index(), 2);
    assert_eq!(Day::Thu.index(), 3);
    assert_eq!(Day::Fri.index(), 4);
    assert_eq!(Day::Mon.name(), "MON");
    assert_eq!(Day::Tue.name(), "TUE");
    assert_eq!(Day::Wed.name(), "WED");
    assert_eq!(Day::Thu.name(), "THU");
    assert_eq!(Day::Fri.name(), "FRI");
    assert_eq!(Turn::Morning.index(), 0);
    assert_eq!(Turn::Afternoon.index(), 1);
}

#[test]
fn preference_new_keeps_slot() {
    let p = Preference::new(Day::Wed, Turn::Afternoon);
    assert_eq!(p.day.index(), 2);
    assert_eq!(p.turn.index(), 1);
}

#[test]
fn person_constructors() {
    let p = Person::new("Ada", "Lovelace");
    assert_eq!(p.name, "Ada");
    assert_eq!(p.surname, "Lovelace");
    assert!(p.preferences.is_empty());
    assert_eq!(p.tot_hours, 150);
    assert_eq!(p.worked_hours, 0);

    let q = Person::with_preferences(
        "Andrea",
        "Bonvissuto",
        vec![Preference::new(Day::Mon, Turn::Morning)],
        41,
    );
    assert_eq!(q.tot_hours, 150);
    assert_eq!(q.worked_hours, 41);
    assert_eq!(q.preferences.len(), 1);

    let r = Person::with_all("Nina", "Querini", vec![], 22, 150);
    assert_eq!(r.tot_hours, 150);
    assert_eq!(r.worked_hours, 22);
}

#[test]
fn acronym_takes_two_letters_of_each() {
    let p = Person::new("Andrea", "Bonvissuto");
    assert_eq!(p.acronym(), "AnBo");
}

#[test]
fn default_timetable_hours() {
    let t = Timetable::new();
    assert_eq!(t.base.len(), 5);
    for d in 0..4 {
        assert_eq!(t.base[d].0 .0, 4);
        assert_eq!(t.base[d].1 .0, 6);
    }
    assert_eq!(t.base[4].0 .0, 4);
    assert_eq!(t.base[4].1 .0, 5);
    assert!(t.people.is_empty());
}

#[test]
fn timetable_builders() {
    let custom = [(TurnHours(3), TurnHours(7)), (TurnHours(2), TurnHours(2))];
    let mut t = Timetable::with_turnhours(&custom);
    assert_eq!(t.base.len(), 2);
    assert_eq!(t.base[0].1 .0, 7);

    t.set_turnhours(vec![(TurnHours(1), TurnHours(1))]);
    assert_eq!(t.base.len(), 1);

    t.add_person(Person::new("Ada", "Lovelace"));
    assert_eq!(t.people.len(), 1);
    t.add_people(vec![Person::new("Max", "Planck"), Person::new("Emmy", "Noether")]);
    assert_eq!(t.people.len(), 2);
    assert_eq!(t.people[0].name, "Max");
}

#[test]
fn extractor_round_trips_preferences() {
    let mut t = Timetable::new();
    t.add_person(Person::with_preferences(
        "Andrea",
        "Bonvissuto",
        vec![
            Preference::new(Day::Mon, Turn::Morning),
            Preference::new(Day::Thu, Turn::Afternoon),
        ],
        41,
    ));
    t.add_person(Person::with_all("Nina", "Querini", vec![], 30, 140));
    let (matrix, rem) = t.get_people_preferences_and_rem_hours();
    assert_eq!(matrix.len(), 2);
    assert_eq!(rem, vec![109, 110]);
    for d in 0..5 {
        for s in 0..2 {
            let expected = (d == 0 && s == 0) || (d == 3 && s == 1);
            assert_eq!(matrix[0][d][s], expected);
            assert!(!matrix[1][d][s]);
        }
    }
}

#[test]
fn extractor_tolerates_negative_balance() {
    let mut t = Timetable::new();
    t.add_person(Person::with_all("Over", "Quota", vec![], 160, 150));
    let (_, rem) = t.get_people_preferences_and_rem_hours();
    assert_eq!(rem, vec![-10]);
}

#[test]
fn encode_round_trips_index_pairs() {
    let prefs = vec![vec![(0, 0), (3, 1)], vec![(4, 0)]];
    let matrix = encode_preferences(&prefs, 5, 2).unwrap();
    for (i, grid) in matrix.iter().enumerate() {
        assert_eq!(grid.len(), 5);
        for (d, row) in grid.iter().enumerate() {
            assert_eq!(row.len(), 2);
            for (s, &v) in row.iter().enumerate() {
                assert_eq!(v, prefs[i].contains(&(d, s)));
            }
        }
    }
}

#[test]
fn out_of_range_day_is_invalid_preference() {
    let prefs = vec![vec![(0, 0)], vec![(7, 0)]];
    let r = encode_preferences(&prefs, 5, 2);
    match r {
        Err(SchedulingError::InvalidPreference { worker, day, turn }) => {
            assert_eq!(worker, 1);
            assert_eq!(day, 7);
            assert_eq!(turn, 0);
        }
        _ => panic!("expected InvalidPreference"),
    }
}

#[test]
fn out_of_range_shift_is_invalid_preference() {
    let prefs = vec![vec![(2, 5)]];
    let r = encode_preferences(&prefs, 5, 2);
    assert!(matches!(
        r,
        Err(SchedulingError::InvalidPreference { worker: 0, day: 2, turn: 5 })
    ));
}
