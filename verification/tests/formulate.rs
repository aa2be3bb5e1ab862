use shift_roster::model::{LinCmp, Model};
use shift_roster::person::{Person, Preference};
use shift_roster::schedule::{decode_solution, get_hours_by_day_turn};
use shift_roster::scheduler::{ConstraintType, Scheduler, SchedulingError};
use shift_roster::timetable::{Day, Timetable, Turn};

fn all_true(workers: usize, days: usize, shifts: usize) -> Vec<Vec<Vec<bool>>> {
    vec![vec![vec![true; shifts]; days]; workers]
}

fn scenario_a_scheduler() -> Scheduler {
    // Two workers, one day, one shift worth 4 hours, both eligible.
    let mut s = Scheduler::new(8, 0, 2, 1, 1);
    s.add_preferences(all_true(2, 1, 1));
    s.add_remaining_hours(vec![5, 5]);
    s.set_turnhours(vec![vec![4]]);
    s.add_variables_to_model();
    s.set_constraint(ConstraintType::MaxOnePersonPerShift);
    s.set_constraint(ConstraintType::MinMaxWeekHoursPerPerson(0, 8));
    s
}

fn scenario_b_scheduler() -> Scheduler {
    // One worker, one day with two shifts of 4 and 6 hours, both needing
    // coverage, and the no-double-shift rule active.
    let mut s = Scheduler::new(12, 0, 1, 1, 2);
    s.add_preferences(all_true(1, 1, 2));
    s.add_remaining_hours(vec![10]);
    s.set_turnhours(vec![vec![4, 6]]);
    s.add_variables_to_model();
    s.set_constraint(ConstraintType::MaxOnePersonPerShift);
    s.set_constraint(ConstraintType::MinMaxWeekHoursPerPerson(0, 12));
    s.set_constraint(ConstraintType::NoConsecutiveShifts);
    s
}

fn scenario_c_scheduler() -> Scheduler {
    // Two equally eligible workers compete for one slot worth 4 hours;
    // their remaining balances are 10 and 1.
    let mut s = Scheduler::new(8, 0, 2, 1, 1);
    s.add_preferences(all_true(2, 1, 1));
    s.add_remaining_hours(vec![10, 1]);
    s.set_turnhours(vec![vec![4]]);
    s.add_variables_to_model();
    s.set_constraint(ConstraintType::MaxOnePersonPerShift);
    s.set_constraint(ConstraintType::MinMaxWeekHoursPerPerson(0, 8));
    s
}

#[test]
fn variable_count_is_workers_times_days_times_shifts() {
    let mut s = Scheduler::new(12, 1, 3, 5, 2);
    s.add_preferences(all_true(3, 5, 2));
    s.add_remaining_hours(vec![10, 20, 30]);
    s.set_turnhours(vec![vec![4, 6]; 5]);
    s.add_variables_to_model();
    let model = s.schedule();
    assert_eq!(model.num_vars(), 3 * 5 * 2);
    assert_eq!(model.vars.len(), 30);
    // Each variable is traceable to its (worker, day, shift) triple.
    for (j, key) in model.vars.iter().enumerate() {
        assert_eq!(j, key.worker * 10 + key.day * 2 + key.turn);
    }
}

#[test]
fn coverage_and_hour_rows_have_expected_shape() {
    let s = scenario_a_scheduler();
    // One coverage row plus two hour rows for each of the two workers.
    let groups: &Vec<Vec<_>> = &s.constraints;
    assert_eq!(groups.len(), 2);
    assert_eq!(groups[0].len(), 1);
    assert!(matches!(groups[0][0].cmp, LinCmp::EqualTo));
    assert_eq!(groups[0][0].rhs, 1);
    assert_eq!(groups[0][0].coeffs, vec![1, 1]);
    assert_eq!(groups[1].len(), 4);
    assert_eq!(groups[1][0].coeffs, vec![4, 0]);
    assert!(matches!(groups[1][0].cmp, LinCmp::AtLeast));
    assert_eq!(groups[1][1].coeffs, vec![4, 0]);
    assert!(matches!(groups[1][1].cmp, LinCmp::AtMost));
    assert_eq!(groups[1][2].coeffs, vec![0, 4]);
    assert_eq!(groups[1][3].coeffs, vec![0, 4]);
}

fn feasible_assignments(model: &Model) -> Vec<Vec<u8>> {
    let n = model.num_vars();
    let mut found = Vec::new();
    for bits in 0..(1u32 << n) {
        let a: Vec<u8> = (0..n).map(|j| ((bits >> j) & 1) as u8).collect();
        if model.check_assignment(&a) {
            found.push(a);
        }
    }
    found
}

#[test]
fn scenario_a_exactly_one_worker_gets_the_shift() {
    let mut s = scenario_a_scheduler();
    let model = s.schedule();
    let feasible = feasible_assignments(&model);
    assert_eq!(feasible, vec![vec![1, 0], vec![0, 1]]);
    // Whoever is assigned works 4 hours; the other works 0.
    let sched = decode_solution(&s, &vec![1, 0]).unwrap();
    assert_eq!(sched.workers[0].hours_worked, 4);
    assert_eq!(sched.workers[1].hours_worked, 0);
    assert_eq!(sched.workers[0].remaining_after, 1);
    assert_eq!(sched.workers[1].remaining_after, 5);
    assert!(sched.workers[0].assigned[0][0]);
    assert!(!sched.workers[1].assigned[0][0]);
}

#[test]
fn scenario_b_is_infeasible() {
    let mut s = scenario_b_scheduler();
    let model = s.schedule();
    assert!(feasible_assignments(&model).is_empty());
}

#[test]
fn scenario_c_objective_prefers_larger_deficit() {
    let mut s = scenario_c_scheduler();
    let model = s.schedule();
    // obj = 10*(10 - 4*x0) + 1*(1 - 4*x1)
    let give_to_first = model.objective_value(&vec![1, 0]);
    let give_to_second = model.objective_value(&vec![0, 1]);
    assert_eq!(give_to_first, 61);
    assert_eq!(give_to_second, 97);
    assert!(give_to_first < give_to_second);
}

#[test]
fn slot_hours_count_only_taken_slots() {
    let hours = vec![vec![4, 6], vec![4, 5]];
    assert_eq!(get_hours_by_day_turn(1, 0, 1, &hours), 6);
    assert_eq!(get_hours_by_day_turn(0, 0, 1, &hours), 0);
    assert_eq!(get_hours_by_day_turn(1, 1, 1, &hours), 5);
}

#[test]
fn decode_rejects_non_integral_values() {
    let s = scenario_a_scheduler();
    let r = decode_solution(&s, &vec![1, 2]);
    assert!(matches!(r, Err(SchedulingError::NonIntegralSolution)));
    let r = decode_solution(&s, &vec![255, 0]);
    assert!(matches!(r, Err(SchedulingError::NonIntegralSolution)));
}

#[test]
fn decode_twice_gives_identical_schedules() {
    let s = scenario_a_scheduler();
    let a = vec![0, 1];
    let one = decode_solution(&s, &a).unwrap();
    let two = decode_solution(&s, &a).unwrap();
    assert_eq!(one.workers.len(), two.workers.len());
    for (x, y) in one.workers.iter().zip(two.workers.iter()) {
        assert_eq!(x.assigned, y.assigned);
        assert_eq!(x.hours_worked, y.hours_worked);
        assert_eq!(x.remaining_after, y.remaining_after);
    }
}

#[test]
fn calc_builds_the_default_weekly_model() {
    let mut t = Timetable::new();
    t.add_people(vec![
        Person::with_preferences(
            "Andrea",
            "Bonvissuto",
            vec![Preference::new(Day::Mon, Turn::Morning)],
            41,
        ),
        Person::with_all("Nina", "Querini", vec![], 22, 150),
    ]);
    let mut s = t.calc().unwrap();
    assert_eq!(s.num_workers, 2);
    assert_eq!(s.num_days, 5);
    assert_eq!(s.num_shifts, 2);
    assert_eq!(s.rem_hours, vec![109, 128]);
    assert_eq!(s.constraints.len(), 2);
    // 10 coverage rows, 2 hour-bound rows per worker.
    assert_eq!(s.constraints[0].len(), 10);
    assert_eq!(s.constraints[1].len(), 4);
    let model = s.schedule();
    assert_eq!(model.num_vars(), 20);
    assert_eq!(model.constraints.len(), 14);
    // The objective constant is the sum of squared balances.
    assert_eq!(model.objective.constant, 109 * 109 + 128 * 128);
    // Preferred slots carry -balance * hours; others 0.
    assert_eq!(model.objective.coeffs[0], -109 * 4);
    assert_eq!(model.objective.coeffs[1], 0);
    assert!(model.objective.coeffs[10..].iter().all(|&c| c == 0));
}
