use good_lp::{variable, Expression, ProblemVariables, ResolutionError, Solution, SolverModel};
use shift_roster::model::{LinCmp, Model};
use shift_roster::person::{Person, Preference};
use shift_roster::schedule::decode_solution;
use shift_roster::scheduler::{ConstraintType, Scheduler};
use shift_roster::timetable::{Day, Timetable, Turn};

/// Hands the assembled model to the solving engine and reads the raw
/// assignment back, mapping every solution value to 0 or 1 (or 255 when the
/// engine returns something that is not a binary decision).
fn solve_model(model: &Model) -> Result<Vec<u8>, ResolutionError> {
    let mut problem_vars = ProblemVariables::new();
    let mut vars = Vec::with_capacity(model.vars.len());
    for _ in 0..model.vars.len() {
        vars.push(problem_vars.add(variable().binary()));
    }
    let mut objective: Expression = (model.objective.constant as f64).into();
    for (j, &c) in model.objective.coeffs.iter().enumerate() {
        if c != 0 {
            objective.add_mul(c as f64, vars[j]);
        }
    }
    let mut problem = problem_vars.minimise(objective).using(good_lp::default_solver);
    for constraint in &model.constraints {
        let mut e = Expression::default();
        for (j, &c) in constraint.coeffs.iter().enumerate() {
            if c != 0 {
                e.add_mul(c as f64, vars[j]);
            }
        }
        let rhs = constraint.rhs as f64;
        problem = problem.with(match constraint.cmp {
            LinCmp::EqualTo => e.eq(rhs),
            LinCmp::AtLeast => e.geq(rhs),
            LinCmp::AtMost => e.leq(rhs),
        });
    }
    let solution = problem.solve()?;
    Ok(vars
        .iter()
        .map(|&v| {
            let x = solution.value(v);
            if (x - 0.0).abs() < 1e-6 {
                0
            } else if (x - 1.0).abs() < 1e-6 {
                1
            } else {
                255
            }
        })
        .collect())
}

fn all_true(workers: usize, days: usize, shifts: usize) -> Vec<Vec<Vec<bool>>> {
    vec![vec![vec![true; shifts]; days]; workers]
}

#[test]
fn engine_assigns_exactly_one_worker_to_the_single_shift() {
    let mut s = Scheduler::new(8, 0, 2, 1, 1);
    s.add_preferences(all_true(2, 1, 1));
    s.add_remaining_hours(vec![5, 5]);
    s.set_turnhours(vec![vec![4]]);
    s.add_variables_to_model();
    s.set_constraint(ConstraintType::MaxOnePersonPerShift);
    s.set_constraint(ConstraintType::MinMaxWeekHoursPerPerson(0, 8));
    let model = s.schedule();
    let raw = solve_model(&model).unwrap();
    assert_eq!(raw.iter().map(|&x| x as u32).sum::<u32>(), 1);
    let schedule = decode_solution(&s, &raw).unwrap();
    let hours: Vec<i64> = schedule.workers.iter().map(|w| w.hours_worked).collect();
    let mut sorted = hours.clone();
    sorted.sort();
    assert_eq!(sorted, vec![0, 4]);
}

#[test]
fn engine_reports_infeasible_double_shift() {
    let mut s = Scheduler::new(12, 0, 1, 1, 2);
    s.add_preferences(all_true(1, 1, 2));
    s.add_remaining_hours(vec![10]);
    s.set_turnhours(vec![vec![4, 6]]);
    s.add_variables_to_model();
    s.set_constraint(ConstraintType::MaxOnePersonPerShift);
    s.set_constraint(ConstraintType::MinMaxWeekHoursPerPerson(0, 12));
    s.set_constraint(ConstraintType::NoConsecutiveShifts);
    let model = s.schedule();
    assert!(matches!(solve_model(&model), Err(ResolutionError::Infeasible)));
}

#[test]
fn engine_prefers_the_worker_with_the_larger_deficit() {
    let mut s = Scheduler::new(8, 0, 2, 1, 1);
    s.add_preferences(all_true(2, 1, 1));
    s.add_remaining_hours(vec![10, 1]);
    s.set_turnhours(vec![vec![4]]);
    s.add_variables_to_model();
    s.set_constraint(ConstraintType::MaxOnePersonPerShift);
    s.set_constraint(ConstraintType::MinMaxWeekHoursPerPerson(0, 8));
    let model = s.schedule();
    let raw = solve_model(&model).unwrap();
    assert_eq!(raw, vec![1, 0]);
    let schedule = decode_solution(&s, &raw).unwrap();
    assert_eq!(schedule.workers[0].hours_worked, 4);
    assert_eq!(schedule.workers[0].remaining_after, 6);
    assert_eq!(schedule.workers[1].hours_worked, 0);
}

#[test]
fn weekly_roster_solves_within_hour_bounds() {
    let mut timetable = Timetable::new();
    timetable.add_people(vec![
        Person::with_preferences(
            "Andrea",
            "Bonvissuto",
            vec![
                Preference::new(Day::Mon, Turn::Morning),
                Preference::new(Day::Tue, Turn::Morning),
                Preference::new(Day::Wed, Turn::Morning),
                Preference::new(Day::Thu, Turn::Morning),
                Preference::new(Day::Fri, Turn::Morning),
                Preference::new(Day::Mon, Turn::Afternoon),
                Preference::new(Day::Thu, Turn::Afternoon),
            ],
            41,
        ),
        Person::with_preferences(
            "Luca",
            "De Candia",
            vec![
                Preference::new(Day::Wed, Turn::Morning),
                Preference::new(Day::Fri, Turn::Morning),
                Preference::new(Day::Thu, Turn::Afternoon),
            ],
            36,
        ),
        Person::with_preferences(
            "Daniele",
            "De Rossi",
            vec![
                Preference::new(Day::Thu, Turn::Morning),
                Preference::new(Day::Fri, Turn::Afternoon),
            ],
            28,
        ),
        Person::with_preferences(
            "Giovanni",
            "Giunta",
            vec![
                Preference::new(Day::Thu, Turn::Morning),
                Preference::new(Day::Fri, Turn::Afternoon),
            ],
            37,
        ),
        Person::with_preferences(
            "Vincenzo",
            "Miccichè",
            vec![
                Preference::new(Day::Tue, Turn::Morning),
                Preference::new(Day::Wed, Turn::Afternoon),
            ],
            32,
        ),
        Person::with_all(
            "Niccolò",
            "Querini Squillari",
            vec![Preference::new(Day::Wed, Turn::Morning)],
            22,
            150,
        ),
        Person::with_preferences(
            "Domenico Elia",
            "Sabella",
            vec![
                Preference::new(Day::Tue, Turn::Morning),
                Preference::new(Day::Thu, Turn::Morning),
                Preference::new(Day::Fri, Turn::Morning),
                Preference::new(Day::Tue, Turn::Afternoon),
                Preference::new(Day::Wed, Turn::Afternoon),
                Preference::new(Day::Thu, Turn::Afternoon),
                Preference::new(Day::Fri, Turn::Afternoon),
            ],
            39,
        ),
    ]);
    let mut scheduler = timetable.calc().unwrap();
    let model = scheduler.schedule();
    assert_eq!(model.num_vars(), 7 * 5 * 2);
    let raw = solve_model(&model).unwrap();
    assert!(model.check_assignment(&raw));
    // Coverage: each of the 10 slots is taken by exactly one worker.
    for slot in 0..10 {
        let taken: u32 = (0..7).map(|w| raw[w * 10 + slot] as u32).sum();
        assert_eq!(taken, 1);
    }
    let schedule = decode_solution(&scheduler, &raw).unwrap();
    for worker in &schedule.workers {
        assert!(worker.hours_worked >= 1 && worker.hours_worked <= 12);
    }
    // All 40 configured weekly hours are handed out.
    let total: i64 = schedule.workers.iter().map(|w| w.hours_worked).sum();
    assert_eq!(total, 4 * 5 + 6 * 4 + 5);
}
