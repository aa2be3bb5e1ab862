//! The model formulator: allocates one binary decision variable per
//! (worker, day, shift) triple and assembles the constraint families and the
//! fairness objective into a [`Model`].
//!
//! Constraint families are separable groups that the caller activates one by
//! one through [`ConstraintType`]; the objective rewards placing workers with
//! a large remaining-hours deficit into their preferred slots (a heuristic
//! fairness proxy, not a provably fair allocation).
use crate::model::{
    constraint_wf, day_of, dot, dot_range, is_binary, lemma_block_projections,
    lemma_dot_range_single, lemma_dot_range_split, lemma_dot_range_zero, lemma_var_index_inverse,
    objective_wf, satisfies, slot_workers, turn_of, var_index, worker_hours, worker_of,
    worker_slot_hours, LinCmp, LinConstraint, LinObjective, Model, VarKey, MAX_COEFF,
    MAX_HOURS_VALUE, MAX_OBJ_CONSTANT, MAX_VARIABLES,
};
use crate::timetable::Timetable;
use vstd::arithmetic::div_mod::{lemma_div_is_ordered, lemma_fundamental_div_mod_converse};
use vstd::prelude::*;

verus! {

/// Coefficient of flat variable `j` in the coverage row of slot (d, s):
/// 1 when the variable belongs to that slot, else 0.
pub open spec fn coverage_coeff(j: int, d: int, s: int, nd: int, ns: int) -> i64 {
    if day_of(j, nd, ns) == d && turn_of(j, ns) == s {
        1i64
    } else {
        0i64
    }
}

/// The coverage family: one equality per (day, shift) slot, in day-major
/// order; row k forces the variables of slot (k / ns, k % ns) to sum to
/// exactly 1.
pub open spec fn coverage_group(g: Seq<LinConstraint>, nw: int, nd: int, ns: int) -> bool {
    &&& g.len() == nd * ns
    &&& forall|k: int|
        0 <= k < g.len() ==> {
            let c = #[trigger] g[k];
            &&& c.cmp == LinCmp::EqualTo
            &&& c.rhs == 1
            &&& c.coeffs.len() == nw * nd * ns
            &&& forall|j: int|
                0 <= j < c.coeffs.len() ==> #[trigger] c.coeffs[j] == coverage_coeff(
                    j,
                    k / ns,
                    k % ns,
                    nd,
                    ns,
                )
        }
}

/// Coefficient of flat variable `j` in worker `i`'s hour row: the slot's
/// hour count when the variable belongs to worker `i`, else 0.
pub open spec fn hour_coeff(j: int, i: int, hours: Seq<Vec<i64>>, nd: int, ns: int) -> i64 {
    if worker_of(j, nd, ns) == i {
        hours[day_of(j, nd, ns)][turn_of(j, ns)]
    } else {
        0i64
    }
}

/// The hour-bound family: two rows per worker, in worker order; rows 2i and
/// 2i+1 bound worker i's assigned-slot hours below by `min` and above by
/// `max`.
pub open spec fn hour_bounds_group(
    g: Seq<LinConstraint>,
    hours: Seq<Vec<i64>>,
    min: int,
    max: int,
    nw: int,
    nd: int,
    ns: int,
) -> bool {
    &&& g.len() == 2 * nw
    &&& forall|k: int|
        0 <= k < g.len() ==> {
            let c = #[trigger] g[k];
            &&& c.coeffs.len() == nw * nd * ns
            &&& (forall|j: int|
                0 <= j < c.coeffs.len() ==> #[trigger] c.coeffs[j] == hour_coeff(
                    j,
                    k / 2,
                    hours,
                    nd,
                    ns,
                ))
            &&& (k % 2 == 0 ==> c.cmp == LinCmp::AtLeast && c.rhs == min)
            &&& (k % 2 == 1 ==> c.cmp == LinCmp::AtMost && c.rhs == max)
        }
}

/// Coefficient of flat variable `j` in the no-double-shift row of worker `i`
/// on day `d`: 1 when the variable is one of that worker's shifts that day.
pub open spec fn day_slot_coeff(j: int, i: int, d: int, nd: int, ns: int) -> i64 {
    if worker_of(j, nd, ns) == i && day_of(j, nd, ns) == d {
        1i64
    } else {
        0i64
    }
}

/// The no-double-shift family: one row per (worker, day), in worker-major
/// order; row k caps worker k / nd's shifts on day k % nd at 1.
pub open spec fn no_double_group(g: Seq<LinConstraint>, nw: int, nd: int, ns: int) -> bool {
    &&& g.len() == nw * nd
    &&& forall|k: int|
        0 <= k < g.len() ==> {
            let c = #[trigger] g[k];
            &&& c.cmp == LinCmp::AtMost
            &&& c.rhs == 1
            &&& c.coeffs.len() == nw * nd * ns
            &&& forall|j: int|
                0 <= j < c.coeffs.len() ==> #[trigger] c.coeffs[j] == day_slot_coeff(
                    j,
                    k / nd,
                    k % nd,
                    nd,
                    ns,
                )
        }
}

/// Sum of the squared remaining-hours balances of the first `n` workers.
pub open spec fn sum_squares(rem: Seq<i64>, n: int) -> int
    decreases n,
{
    if n <= 0 {
        0
    } else {
        sum_squares(rem, n - 1) + rem[n - 1] * rem[n - 1]
    }
}

/// Objective coefficient of flat variable `j`: minus the worker's balance
/// times the slot's hours when the worker prefers the slot, else 0. Together
/// with the constant term this makes the objective
/// `sum_i rem[i] * (rem[i] - preferred_hours(i))`.
pub open spec fn objective_coeff(
    j: int,
    prefs: Seq<Vec<Vec<bool>>>,
    rem: Seq<i64>,
    hours: Seq<Vec<i64>>,
    nd: int,
    ns: int,
) -> int {
    let i = worker_of(j, nd, ns);
    let d = day_of(j, nd, ns);
    let s = turn_of(j, ns);
    if prefs[i][d][s] {
        -(rem[i] * hours[d][s])
    } else {
        0
    }
}

/// The fairness objective for the given roster data: coefficients as above
/// and the constant `sum_i rem[i]^2`.
pub open spec fn objective_matches(
    o: LinObjective,
    prefs: Seq<Vec<Vec<bool>>>,
    rem: Seq<i64>,
    hours: Seq<Vec<i64>>,
    nw: int,
    nd: int,
    ns: int,
) -> bool {
    &&& o.coeffs.len() == nw * nd * ns
    &&& forall|j: int|
        0 <= j < o.coeffs.len() ==> #[trigger] o.coeffs[j] == objective_coeff(
            j,
            prefs,
            rem,
            hours,
            nd,
            ns,
        )
    &&& o.constant == sum_squares(rem, rem.len() as int)
}

/// Everything that can go wrong between roster and decoded schedule.
#[derive(Debug)]
pub enum SchedulingError {
    /// A preference names a day or shift index outside the configured grid.
    InvalidPreference { worker: usize, day: usize, turn: usize },
    /// No assignment satisfies all active constraints.
    Infeasible,
    /// The external solving engine failed; its message is passed through.
    EngineError(String),
    /// The engine returned a value that is not a binary decision.
    NonIntegralSolution,
}

/// The constraint families the formulator can activate, each independently.
#[derive(Copy, Clone, PartialEq, Eq, Structural, Debug)]
pub enum ConstraintType {
    /// Every (day, shift) slot is covered by exactly one worker.
    MaxOnePersonPerShift,
    /// Each worker's period hours lie within the two bounds.
    MinMaxWeekHoursPerPerson(i64, i64),
    /// At most one shift per worker per day.
    NoConsecutiveShifts,
}

/// The formulator state: dimensions, extracted roster data, the hour table,
/// the variable index, and the constraint groups assembled so far.
pub struct Scheduler {
    pub max_hours_per_week: usize,
    pub min_hours_per_week: usize,
    pub num_workers: usize,
    pub num_days: usize,
    pub num_shifts: usize,
    pub rem_hours: Vec<i64>,
    pub preferences: Vec<Vec<Vec<bool>>>,
    /// Hours of each (day, shift) slot.
    pub turn_hours: Vec<Vec<i64>>,
    /// Constraint groups, one per activated family, in activation order.
    pub constraints: Vec<Vec<LinConstraint>>,
    /// Flat variable index: position `var_index(i, d, s)` holds (i, d, s).
    pub vars: Vec<VarKey>,
}

impl Scheduler {
    /// Number of decision variables the dimensions call for.
    pub open spec fn num_vars_spec(self) -> int {
        self.num_workers * self.num_days * self.num_shifts
    }

    /// Dimensions small enough that every flat index fits.
    pub open spec fn dims_wf(self) -> bool {
        &&& self.num_workers <= MAX_VARIABLES
        &&& self.num_days * self.num_shifts <= MAX_VARIABLES
        &&& self.num_workers * self.num_days * self.num_shifts <= MAX_VARIABLES
    }

    /// Roster data matches the dimensions and stays within the numeric range.
    pub open spec fn data_wf(self) -> bool {
        &&& self.dims_wf()
        &&& self.rem_hours.len() == self.num_workers
        &&& forall|i: int|
            0 <= i < self.num_workers ==> -2 * MAX_HOURS_VALUE <= #[trigger] self.rem_hours[i]
                <= 2 * MAX_HOURS_VALUE
        &&& self.preferences.len() == self.num_workers
        &&& forall|i: int|
            0 <= i < self.num_workers ==> (#[trigger] self.preferences[i])@.len()
                == self.num_days
        &&& forall|i: int, d: int|
            0 <= i < self.num_workers && 0 <= d < self.num_days
                ==> (#[trigger] self.preferences[i]@[d])@.len() == self.num_shifts
        &&& self.turn_hours.len() == self.num_days
        &&& forall|d: int|
            0 <= d < self.num_days ==> (#[trigger] self.turn_hours[d])@.len() == self.num_shifts
        &&& forall|d: int, s: int|
            0 <= d < self.num_days && 0 <= s < self.num_shifts ==> 0
                <= #[trigger] self.turn_hours[d]@[s] <= MAX_HOURS_VALUE
    }

    /// The variable index is complete: one entry per flat position, each
    /// carrying the triple the position stands for.
    pub open spec fn vars_wf(self) -> bool {
        &&& self.vars.len() == self.num_vars_spec()
        &&& forall|p: int|
            0 <= p < self.vars.len() ==> {
                let k = #[trigger] self.vars[p];
                &&& k.worker == worker_of(p, self.num_days as int, self.num_shifts as int)
                &&& k.day == day_of(p, self.num_days as int, self.num_shifts as int)
                &&& k.turn == turn_of(p, self.num_shifts as int)
            }
    }

    /// Every constraint of every group is a well-formed row for this model.
    pub open spec fn constraints_wf(self) -> bool {
        forall|k: int, c: int|
            0 <= k < self.constraints.len() && 0 <= c < (#[trigger] self.constraints[k])@.len()
                ==> constraint_wf(#[trigger] self.constraints[k]@[c], self.num_vars_spec())
    }

    pub fn new(
        max_hours_per_week: usize,
        min_hours_per_week: usize,
        num_workers: usize,
        num_days: usize,
        num_shifts: usize,
    ) -> (r: Self)
        requires
            num_workers <= MAX_VARIABLES,
            num_days * num_shifts <= MAX_VARIABLES,
            num_workers * num_days * num_shifts <= MAX_VARIABLES,
        ensures
            r.max_hours_per_week == max_hours_per_week,
            r.min_hours_per_week == min_hours_per_week,
            r.num_workers == num_workers,
            r.num_days == num_days,
            r.num_shifts == num_shifts,
            r.rem_hours@.len() == 0,
            r.preferences@.len() == 0,
            r.turn_hours@.len() == 0,
            r.constraints@.len() == 0,
            r.vars@.len() == 0,
            r.dims_wf(),
    {
        Self {
            max_hours_per_week,
            min_hours_per_week,
            num_workers,
            num_days,
            num_shifts,
            rem_hours: Vec::new(),
            preferences: Vec::new(),
            turn_hours: Vec::new(),
            constraints: Vec::new(),
            vars: Vec::new(),
        }
    }

    /// Replaces the per-worker remaining-hours balances.
    pub fn add_remaining_hours(&mut self, remaining_hours: Vec<i64>)
        ensures
            *final(self) == (Scheduler { rem_hours: remaining_hours, ..*old(self) }),
    {
        self.rem_hours = remaining_hours;
    }

    /// Replaces the worker x day x shift preference matrix.
    pub fn add_preferences(&mut self, preferences: Vec<Vec<Vec<bool>>>)
        ensures
            *final(self) == (Scheduler { preferences, ..*old(self) }),
    {
        self.preferences = preferences;
    }

    /// Replaces the per-(day, shift) hour table.
    pub fn set_turnhours(&mut self, turn_hours: Vec<Vec<i64>>)
        ensures
            *final(self) == (Scheduler { turn_hours, ..*old(self) }),
    {
        self.turn_hours = turn_hours;
    }

    fn add_constraint(&mut self, constraint: Vec<LinConstraint>)
        ensures
            final(self).constraints@ == old(self).constraints@.push(constraint),
            final(self).rem_hours == old(self).rem_hours,
            final(self).preferences == old(self).preferences,
            final(self).turn_hours == old(self).turn_hours,
            final(self).vars == old(self).vars,
            final(self).num_workers == old(self).num_workers,
            final(self).num_days == old(self).num_days,
            final(self).num_shifts == old(self).num_shifts,
            final(self).max_hours_per_week == old(self).max_hours_per_week,
            final(self).min_hours_per_week == old(self).min_hours_per_week,
    {
        self.constraints.push(constraint);
    }

    /// Allocates the flat variable index: one binary decision variable per
    /// (worker, day, shift) triple, at flat position `var_index(i, d, s)`.
    pub fn add_variables_to_model(&mut self)
        requires
            old(self).dims_wf(),
        ensures
            *final(self) == (Scheduler { vars: final(self).vars, ..*old(self) }),
            final(self).vars_wf(),
            final(self).vars@.len() == old(self).num_vars_spec(),
    {
        proof {
            assert(self.num_workers * self.num_days * self.num_shifts == self.num_workers * (
            self.num_days * self.num_shifts)) by (nonlinear_arith);
            assert(self.num_days * self.num_shifts == 0 ==> self.num_workers * (self.num_days
                * self.num_shifts) == 0) by (nonlinear_arith);
            assert(self.num_shifts == 0 ==> self.num_days * self.num_shifts == 0)
                by (nonlinear_arith);
        }
        let block = self.num_days * self.num_shifts;
        let nv = self.num_workers * block;
        let mut vars: Vec<VarKey> = Vec::new();
        let mut j: usize = 0;
        while j < nv
            invariant
                0 <= j <= nv,
                0 < nv ==> 0 < block && 0 < self.num_shifts,
                block == self.num_days * self.num_shifts,
                nv == self.num_vars_spec(),
                vars@.len() == j,
                forall|p: int|
                    0 <= p < j ==> {
                        let k = #[trigger] vars@[p];
                        &&& k.worker == worker_of(p, self.num_days as int, self.num_shifts as int)
                        &&& k.day == day_of(p, self.num_days as int, self.num_shifts as int)
                        &&& k.turn == turn_of(p, self.num_shifts as int)
                    },
            decreases nv - j,
        {
            let key = VarKey { worker: j / block, day: (j % block) / self.num_shifts, turn: j
                % self.num_shifts };
            vars.push(key);
            j = j + 1;
        }
        self.vars = vars;
    }
}

/// Every flat index below `nw * nd * ns` projects to a worker, day and
/// shift inside the model's ranges.
pub proof fn lemma_flat_in_range(j: int, nw: int, nd: int, ns: int)
    requires
        0 <= j < nw * nd * ns,
        0 <= nw,
        0 <= nd,
        0 <= ns,
    ensures
        0 < nw && 0 < nd && 0 < ns,
        0 <= worker_of(j, nd, ns) < nw,
        0 <= day_of(j, nd, ns) < nd,
        0 <= turn_of(j, ns) < ns,
        nw * nd * ns == nw * (nd * ns),
{
    assert(0 < nw && 0 < nd && 0 < ns) by (nonlinear_arith)
        requires
            0 <= j < nw * nd * ns,
            0 <= nw,
            0 <= nd,
            0 <= ns,
    ;
    let b = nd * ns;
    assert(nw * nd * ns == nw * b && 0 < b) by (nonlinear_arith)
        requires
            b == nd * ns,
            0 < nd,
            0 < ns,
    ;
    assert(nw * b - 1 == (nw - 1) * b + (b - 1)) by (nonlinear_arith);
    lemma_fundamental_div_mod_converse(nw * b - 1, b, nw - 1, b - 1);
    lemma_div_is_ordered(j, nw * b - 1, b);
    lemma_div_is_ordered(0, j, b);
    assert(b - 1 == (nd - 1) * ns + (ns - 1)) by (nonlinear_arith)
        requires
            b == nd * ns,
    ;
    lemma_fundamental_div_mod_converse(b - 1, ns, nd - 1, ns - 1);
    assert(0 <= j % b < b);
    lemma_div_is_ordered(j % b, b - 1, ns);
    lemma_div_is_ordered(0, j % b, ns);
    assert(0 <= j % ns < ns);
}

/// Builds the coverage family: for each (day, shift) slot, the variables of
/// that slot across all workers must sum to exactly 1.
pub fn set_max_one_person_per_shift(scheduler: &Scheduler) -> (r: Vec<LinConstraint>)
    requires
        scheduler.data_wf(),
    ensures
        coverage_group(
            r@,
            scheduler.num_workers as int,
            scheduler.num_days as int,
            scheduler.num_shifts as int,
        ),
        forall|k: int|
            0 <= k < r@.len() ==> constraint_wf(#[trigger] r@[k], scheduler.num_vars_spec()),
{
    let nw = scheduler.num_workers;
    let nd = scheduler.num_days;
    let ns = scheduler.num_shifts;
    proof {
        assert(nw * nd * ns == nw * (nd * ns)) by (nonlinear_arith);
    }
    let block = nd * ns;
    let nv = nw * block;
    let mut r: Vec<LinConstraint> = Vec::new();
    let mut d: usize = 0;
    while d < nd
        invariant
            0 <= d <= nd,
            block == nd * ns,
            nv == nw * nd * ns,
            nv <= MAX_VARIABLES,
            r@.len() == d * ns,
            forall|k: int|
                0 <= k < r@.len() ==> {
                    let c = #[trigger] r@[k];
                    &&& c.cmp == LinCmp::EqualTo
                    &&& c.rhs == 1
                    &&& c.coeffs.len() == nv
                    &&& forall|j: int|
                        0 <= j < c.coeffs.len() ==> #[trigger] c.coeffs[j] == coverage_coeff(
                            j,
                            k / ns as int,
                            k % ns as int,
                            nd as int,
                            ns as int,
                        )
                },
        decreases nd - d,
    {
        let mut s: usize = 0;
        while s < ns
            invariant
                0 <= d < nd,
                0 <= s <= ns,
                block == nd * ns,
                nv == nw * nd * ns,
                nv <= MAX_VARIABLES,
                r@.len() == d * ns + s,
                forall|k: int|
                    0 <= k < r@.len() ==> {
                        let c = #[trigger] r@[k];
                        &&& c.cmp == LinCmp::EqualTo
                        &&& c.rhs == 1
                        &&& c.coeffs.len() == nv
                        &&& forall|j: int|
                            0 <= j < c.coeffs.len() ==> #[trigger] c.coeffs[j] == coverage_coeff(
                                j,
                                k / ns as int,
                                k % ns as int,
                                nd as int,
                                ns as int,
                            )
                    },
            decreases ns - s,
        {
            let mut coeffs: Vec<i64> = Vec::new();
            let mut j: usize = 0;
            while j < nv
                invariant
                    0 <= j <= nv,
                    0 <= d < nd,
                    0 <= s < ns,
                    block == nd * ns,
                    nv == nw * nd * ns,
                    coeffs@.len() == j,
                    forall|p: int|
                        0 <= p < j ==> #[trigger] coeffs@[p] == coverage_coeff(
                            p,
                            d as int,
                            s as int,
                            nd as int,
                            ns as int,
                        ),
                decreases nv - j,
            {
                proof {
                    lemma_flat_in_range(j as int, nw as int, nd as int, ns as int);
                }
                let jd = (j % block) / ns;
                let js = j % ns;
                if jd == d && js == s {
                    coeffs.push(1);
                } else {
                    coeffs.push(0);
                }
                j = j + 1;
            }
            r.push(LinConstraint { coeffs, cmp: LinCmp::EqualTo, rhs: 1 });
            proof {
                lemma_fundamental_div_mod_converse(
                    d as int * ns as int + s as int,
                    ns as int,
                    d as int,
                    s as int,
                );
            }
            s = s + 1;
        }
        proof {
            assert((d + 1) * ns == d * ns + ns) by (nonlinear_arith);
        }
        d = d + 1;
    }
    r
}

/// Builds worker `i`'s hour row: the slot's hour count at each of the
/// worker's own variables, 0 at every other worker's.
fn hour_row(scheduler: &Scheduler, i: usize) -> (r: Vec<i64>)
    requires
        scheduler.data_wf(),
        i < scheduler.num_workers,
    ensures
        r@.len() == scheduler.num_vars_spec(),
        forall|j: int|
            0 <= j < r@.len() ==> #[trigger] r@[j] == hour_coeff(
                j,
                i as int,
                scheduler.turn_hours@,
                scheduler.num_days as int,
                scheduler.num_shifts as int,
            ),
        forall|j: int| 0 <= j < r@.len() ==> 0 <= #[trigger] r@[j] <= MAX_HOURS_VALUE,
{
    let nw = scheduler.num_workers;
    let nd = scheduler.num_days;
    let ns = scheduler.num_shifts;
    proof {
        assert(nw * nd * ns == nw * (nd * ns)) by (nonlinear_arith);
    }
    let block = nd * ns;
    let nv = nw * block;
    let mut r: Vec<i64> = Vec::new();
    let mut j: usize = 0;
    while j < nv
        invariant
            0 <= j <= nv,
            scheduler.data_wf(),
            i < scheduler.num_workers,
            nw == scheduler.num_workers,
            nd == scheduler.num_days,
            ns == scheduler.num_shifts,
            block == nd * ns,
            nv == nw * nd * ns,
            r@.len() == j,
            forall|p: int|
                0 <= p < j ==> #[trigger] r@[p] == hour_coeff(
                    p,
                    i as int,
                    scheduler.turn_hours@,
                    nd as int,
                    ns as int,
                ),
            forall|p: int| 0 <= p < j ==> 0 <= #[trigger] r@[p] <= MAX_HOURS_VALUE,
        decreases nv - j,
    {
        proof {
            lemma_flat_in_range(j as int, nw as int, nd as int, ns as int);
        }
        let jw = j / block;
        if jw == i {
            let jd = (j % block) / ns;
            let js = j % ns;
            r.push(scheduler.turn_hours[jd][js]);
        } else {
            r.push(0);
        }
        j = j + 1;
    }
    r
}

/// Builds the hour-bound family: for each worker, their assigned-slot hours
/// must be at least `min` and at most `max`.
pub fn set_min_max_hours_per_week(scheduler: &Scheduler, min: i64, max: i64) -> (r: Vec<
    LinConstraint,
>)
    requires
        scheduler.data_wf(),
        -MAX_OBJ_CONSTANT <= min <= MAX_OBJ_CONSTANT,
        -MAX_OBJ_CONSTANT <= max <= MAX_OBJ_CONSTANT,
    ensures
        hour_bounds_group(
            r@,
            scheduler.turn_hours@,
            min as int,
            max as int,
            scheduler.num_workers as int,
            scheduler.num_days as int,
            scheduler.num_shifts as int,
        ),
        forall|k: int|
            0 <= k < r@.len() ==> constraint_wf(#[trigger] r@[k], scheduler.num_vars_spec()),
{
    let nw = scheduler.num_workers;
    let mut r: Vec<LinConstraint> = Vec::new();
    let mut i: usize = 0;
    while i < nw
        invariant
            0 <= i <= nw,
            scheduler.data_wf(),
            nw == scheduler.num_workers,
            -MAX_OBJ_CONSTANT <= min <= MAX_OBJ_CONSTANT,
            -MAX_OBJ_CONSTANT <= max <= MAX_OBJ_CONSTANT,
            r@.len() == 2 * i,
            forall|k: int|
                0 <= k < r@.len() ==> {
                    let c = #[trigger] r@[k];
                    &&& c.coeffs.len() == scheduler.num_vars_spec()
                    &&& (forall|j: int|
                        0 <= j < c.coeffs.len() ==> #[trigger] c.coeffs[j] == hour_coeff(
                            j,
                            k / 2,
                            scheduler.turn_hours@,
                            scheduler.num_days as int,
                            scheduler.num_shifts as int,
                        ))
                    &&& (k % 2 == 0 ==> c.cmp == LinCmp::AtLeast && c.rhs == min)
                    &&& (k % 2 == 1 ==> c.cmp == LinCmp::AtMost && c.rhs == max)
                    &&& constraint_wf(c, scheduler.num_vars_spec())
                },
        decreases nw - i,
    {
        let lower = hour_row(scheduler, i);
        r.push(LinConstraint { coeffs: lower, cmp: LinCmp::AtLeast, rhs: min });
        let upper = hour_row(scheduler, i);
        r.push(LinConstraint { coeffs: upper, cmp: LinCmp::AtMost, rhs: max });
        proof {
            lemma_fundamental_div_mod_converse(2 * i as int, 2, i as int, 0);
            lemma_fundamental_div_mod_converse(2 * i as int + 1, 2, i as int, 1);
        }
        i = i + 1;
    }
    r
}

/// Builds the no-double-shift family: for each worker and day, at most one
/// of that day's shifts may be assigned to the worker.
pub fn set_no_consecutive_shifts(scheduler: &Scheduler) -> (r: Vec<LinConstraint>)
    requires
        scheduler.data_wf(),
    ensures
        no_double_group(
            r@,
            scheduler.num_workers as int,
            scheduler.num_days as int,
            scheduler.num_shifts as int,
        ),
        forall|k: int|
            0 <= k < r@.len() ==> constraint_wf(#[trigger] r@[k], scheduler.num_vars_spec()),
{
    let nw = scheduler.num_workers;
    let nd = scheduler.num_days;
    let ns = scheduler.num_shifts;
    proof {
        assert(nw * nd * ns == nw * (nd * ns)) by (nonlinear_arith);
    }
    let block = nd * ns;
    let nv = nw * block;
    let mut r: Vec<LinConstraint> = Vec::new();
    let mut i: usize = 0;
    while i < nw
        invariant
            0 <= i <= nw,
            block == nd * ns,
            nv == nw * nd * ns,
            nv <= MAX_VARIABLES,
            nw <= MAX_VARIABLES,
            r@.len() == i * nd,
            forall|k: int|
                0 <= k < r@.len() ==> {
                    let c = #[trigger] r@[k];
                    &&& c.cmp == LinCmp::AtMost
                    &&& c.rhs == 1
                    &&& c.coeffs.len() == nv
                    &&& forall|j: int|
                        0 <= j < c.coeffs.len() ==> #[trigger] c.coeffs[j] == day_slot_coeff(
                            j,
                            k / nd as int,
                            k % nd as int,
                            nd as int,
                            ns as int,
                        )
                },
        decreases nw - i,
    {
        let mut d: usize = 0;
        while d < nd
            invariant
                0 <= i < nw,
                0 <= d <= nd,
                block == nd * ns,
                nv == nw * nd * ns,
                nv <= MAX_VARIABLES,
                r@.len() == i * nd + d,
                forall|k: int|
                    0 <= k < r@.len() ==> {
                        let c = #[trigger] r@[k];
                        &&& c.cmp == LinCmp::AtMost
                        &&& c.rhs == 1
                        &&& c.coeffs.len() == nv
                        &&& forall|j: int|
                            0 <= j < c.coeffs.len() ==> #[trigger] c.coeffs[j] == day_slot_coeff(
                                j,
                                k / nd as int,
                                k % nd as int,
                                nd as int,
                                ns as int,
                            )
                    },
            decreases nd - d,
        {
            let mut coeffs: Vec<i64> = Vec::new();
            let mut j: usize = 0;
            while j < nv
                invariant
                    0 <= j <= nv,
                    0 <= i < nw,
                    0 <= d < nd,
                    block == nd * ns,
                    nv == nw * nd * ns,
                    coeffs@.len() == j,
                    forall|p: int|
                        0 <= p < j ==> #[trigger] coeffs@[p] == day_slot_coeff(
                            p,
                            i as int,
                            d as int,
                            nd as int,
                            ns as int,
                        ),
                decreases nv - j,
            {
                proof {
                    lemma_flat_in_range(j as int, nw as int, nd as int, ns as int);
                }
                let jw = j / block;
                let jd = (j % block) / ns;
                if jw == i && jd == d {
                    coeffs.push(1);
                } else {
                    coeffs.push(0);
                }
                j = j + 1;
            }
            r.push(LinConstraint { coeffs, cmp: LinCmp::AtMost, rhs: 1 });
            proof {
                lemma_fundamental_div_mod_converse(
                    i as int * nd as int + d as int,
                    nd as int,
                    i as int,
                    d as int,
                );
            }
            d = d + 1;
        }
        proof {
            assert((i + 1) * nd == i * nd + nd) by (nonlinear_arith);
        }
        i = i + 1;
    }
    r
}

/// Builds the fairness objective
/// `sum_i rem[i] * (rem[i] - preferred_hours(i))`: the constant collects the
/// squared balances, and each preferred slot's variable carries
/// `-rem[i] * slot_hours` so that scheduling a preferred slot lowers the
/// objective most for the workers furthest behind.
pub fn default_objective_function(scheduler: &Scheduler) -> (o: LinObjective)
    requires
        scheduler.data_wf(),
    ensures
        objective_matches(
            o,
            scheduler.preferences@,
            scheduler.rem_hours@,
            scheduler.turn_hours@,
            scheduler.num_workers as int,
            scheduler.num_days as int,
            scheduler.num_shifts as int,
        ),
        objective_wf(o, scheduler.num_vars_spec()),
{
    let nw = scheduler.num_workers;
    let nd = scheduler.num_days;
    let ns = scheduler.num_shifts;
    proof {
        assert(nw * nd * ns == nw * (nd * ns)) by (nonlinear_arith);
    }
    let block = nd * ns;
    let nv = nw * block;
    let mut coeffs: Vec<i64> = Vec::new();
    let mut j: usize = 0;
    while j < nv
        invariant
            0 <= j <= nv,
            scheduler.data_wf(),
            nw == scheduler.num_workers,
            nd == scheduler.num_days,
            ns == scheduler.num_shifts,
            block == nd * ns,
            nv == nw * nd * ns,
            coeffs@.len() == j,
            forall|p: int|
                0 <= p < j ==> #[trigger] coeffs@[p] == objective_coeff(
                    p,
                    scheduler.preferences@,
                    scheduler.rem_hours@,
                    scheduler.turn_hours@,
                    nd as int,
                    ns as int,
                ),
            forall|p: int| 0 <= p < j ==> -MAX_COEFF <= #[trigger] coeffs@[p] <= MAX_COEFF,
        decreases nv - j,
    {
        proof {
            lemma_flat_in_range(j as int, nw as int, nd as int, ns as int);
        }
        let jw = j / block;
        let jd = (j % block) / ns;
        let js = j % ns;
        if scheduler.preferences[jw][jd][js] {
            let balance = scheduler.rem_hours[jw];
            let hours = scheduler.turn_hours[jd][js];
            proof {
                assert(-MAX_COEFF <= balance * hours <= MAX_COEFF) by (nonlinear_arith)
                    requires
                        -2 * MAX_HOURS_VALUE <= balance <= 2 * MAX_HOURS_VALUE,
                        0 <= hours <= MAX_HOURS_VALUE,
                ;
            }
            let product = balance * hours;
            coeffs.push(-product);
        } else {
            coeffs.push(0);
        }
        j = j + 1;
    }
    let mut constant: i64 = 0;
    let mut i: usize = 0;
    while i < nw
        invariant
            0 <= i <= nw,
            scheduler.data_wf(),
            nw == scheduler.num_workers,
            constant == sum_squares(scheduler.rem_hours@, i as int),
            0 <= constant <= (i as int) * 4398046511104,
            nw <= MAX_VARIABLES,
        decreases nw - i,
    {
        let balance = scheduler.rem_hours[i];
        proof {
            assert(0 <= balance * balance <= 4398046511104) by (nonlinear_arith)
                requires
                    -2 * MAX_HOURS_VALUE <= balance <= 2 * MAX_HOURS_VALUE,
            ;
        }
        let square = balance * balance;
        constant = constant + square;
        i = i + 1;
    }
    LinObjective { coeffs, constant }
}

/// Concatenation of all constraint groups, in activation order.
pub open spec fn flatten_groups(gs: Seq<Vec<LinConstraint>>) -> Seq<LinConstraint>
    decreases gs.len(),
{
    if gs.len() == 0 {
        Seq::empty()
    } else {
        gs[0]@ + flatten_groups(gs.subrange(1, gs.len() as int))
    }
}

/// Every member of every group appears in the flattened constraint list.
pub proof fn lemma_flatten_groups_contains(gs: Seq<Vec<LinConstraint>>, k: int, c: int)
    requires
        0 <= k < gs.len(),
        0 <= c < gs[k]@.len(),
    ensures
        flatten_groups(gs).contains(gs[k]@[c]),
    decreases k,
{
    if k == 0 {
        assert(flatten_groups(gs)[c] == gs[0]@[c]);
        assert(flatten_groups(gs).contains(gs[k]@[c]));
    } else {
        let tail = gs.subrange(1, gs.len() as int);
        lemma_flatten_groups_contains(tail, k - 1, c);
        assert(tail[k - 1] == gs[k]);
        let p = choose|p: int|
            0 <= p < flatten_groups(tail).len() && flatten_groups(tail)[p] == gs[k]@[c];
        assert(flatten_groups(gs)[gs[0]@.len() + p] == gs[k]@[c]);
        assert(flatten_groups(gs).contains(gs[k]@[c]));
    }
}

impl Default for Scheduler {
    /// An empty formulator: zero dimensions, no data, no constraints.
    fn default() -> (r: Self)
        ensures
            r.max_hours_per_week == 0,
            r.min_hours_per_week == 0,
            r.num_workers == 0,
            r.num_days == 0,
            r.num_shifts == 0,
            r.rem_hours@.len() == 0,
            r.preferences@.len() == 0,
            r.turn_hours@.len() == 0,
            r.constraints@.len() == 0,
            r.vars@.len() == 0,
            r.data_wf(),
            r.vars_wf(),
            r.constraints_wf(),
    {
        Scheduler {
            max_hours_per_week: 0,
            min_hours_per_week: 0,
            num_workers: 0,
            num_days: 0,
            num_shifts: 0,
            rem_hours: Vec::new(),
            preferences: Vec::new(),
            turn_hours: Vec::new(),
            constraints: Vec::new(),
            vars: Vec::new(),
        }
    }
}

impl Scheduler {
    /// Pulls the extractor's output and the hour table out of the timetable
    /// and allocates the decision variables.
    pub fn setup(&mut self, timetable: &Timetable)
        requires
            old(self).dims_wf(),
            old(self).num_workers == timetable.people.len(),
            old(self).num_days == 5,
            old(self).num_shifts == 2,
            timetable.wf(),
        ensures
            final(self).num_workers == old(self).num_workers,
            final(self).num_days == old(self).num_days,
            final(self).num_shifts == old(self).num_shifts,
            final(self).max_hours_per_week == old(self).max_hours_per_week,
            final(self).min_hours_per_week == old(self).min_hours_per_week,
            final(self).constraints == old(self).constraints,
            final(self).data_wf(),
            final(self).vars_wf(),
            forall|i: int|
                0 <= i < timetable.people.len() ==> #[trigger] final(self).rem_hours[i]
                    == timetable.people[i].remaining_spec(),
            forall|i: int, d: int, s: int|
                0 <= i < timetable.people.len() && 0 <= d < 5 && 0 <= s < 2
                    ==> #[trigger] final(self).preferences[i]@[d]@[s] == crate::timetable::prefers(
                    timetable.people[i].preferences@,
                    d,
                    s,
                ),
            forall|d: int|
                0 <= d < 5 ==> {
                    &&& (#[trigger] final(self).turn_hours[d])@[0] == timetable.base[d].0.0
                    &&& final(self).turn_hours[d]@[1] == timetable.base[d].1.0
                },
    {
        let (pref, rem) = timetable.get_people_preferences_and_rem_hours();
        self.add_preferences(pref);
        self.add_remaining_hours(rem);
        let mut hours: Vec<Vec<i64>> = Vec::new();
        let mut d: usize = 0;
        while d < timetable.base.len()
            invariant
                0 <= d <= timetable.base.len(),
                hours@.len() == d,
                forall|q: int|
                    0 <= q < d ==> {
                        &&& (#[trigger] hours@[q])@.len() == 2
                        &&& hours@[q]@[0] == timetable.base[q].0.0
                        &&& hours@[q]@[1] == timetable.base[q].1.0
                    },
            decreases timetable.base.len() - d,
        {
            let mut row: Vec<i64> = Vec::new();
            row.push(timetable.base[d].0.0);
            row.push(timetable.base[d].1.0);
            hours.push(row);
            d = d + 1;
        }
        self.set_turnhours(hours);
        self.add_variables_to_model();
    }

    /// Builds and appends the chosen constraint family as one group.
    pub fn set_constraint(&mut self, constraint: ConstraintType)
        requires
            old(self).data_wf(),
            constraint matches ConstraintType::MinMaxWeekHoursPerPerson(min, max)
                ==> -MAX_OBJ_CONSTANT <= min <= MAX_OBJ_CONSTANT && -MAX_OBJ_CONSTANT <= max
                <= MAX_OBJ_CONSTANT,
        ensures
            final(self).constraints@ == old(self).constraints@.push(
                final(self).constraints@.last(),
            ),
            ({
                let g = final(self).constraints@.last()@;
                &&& match constraint {
                    ConstraintType::MaxOnePersonPerShift => coverage_group(
                        g,
                        old(self).num_workers as int,
                        old(self).num_days as int,
                        old(self).num_shifts as int,
                    ),
                    ConstraintType::MinMaxWeekHoursPerPerson(min, max) => hour_bounds_group(
                        g,
                        old(self).turn_hours@,
                        min as int,
                        max as int,
                        old(self).num_workers as int,
                        old(self).num_days as int,
                        old(self).num_shifts as int,
                    ),
                    ConstraintType::NoConsecutiveShifts => no_double_group(
                        g,
                        old(self).num_workers as int,
                        old(self).num_days as int,
                        old(self).num_shifts as int,
                    ),
                }
                &&& forall|c: int|
                    0 <= c < g.len() ==> constraint_wf(#[trigger] g[c], old(self).num_vars_spec())
            }),
            final(self).rem_hours == old(self).rem_hours,
            final(self).preferences == old(self).preferences,
            final(self).turn_hours == old(self).turn_hours,
            final(self).vars == old(self).vars,
            final(self).num_workers == old(self).num_workers,
            final(self).num_days == old(self).num_days,
            final(self).num_shifts == old(self).num_shifts,
            final(self).max_hours_per_week == old(self).max_hours_per_week,
            final(self).min_hours_per_week == old(self).min_hours_per_week,
    {
        match constraint {
            ConstraintType::MaxOnePersonPerShift => {
                let g = set_max_one_person_per_shift(self);
                self.add_constraint(g);
            },
            ConstraintType::MinMaxWeekHoursPerPerson(min, max) => {
                let g = set_min_max_hours_per_week(self, min, max);
                self.add_constraint(g);
            },
            ConstraintType::NoConsecutiveShifts => {
                let g = set_no_consecutive_shifts(self);
                self.add_constraint(g);
            },
        }
    }

    /// Assembles the variables, all activated constraint groups and the
    /// fairness objective into one model, emptying the formulator as the
    /// groups move into it.
    pub fn schedule(&mut self) -> (m: Model)
        requires
            old(self).data_wf(),
            old(self).vars_wf(),
            old(self).constraints_wf(),
        ensures
            m.wf(),
            m.num_workers == old(self).num_workers,
            m.num_days == old(self).num_days,
            m.num_shifts == old(self).num_shifts,
            m.vars == old(self).vars,
            m.constraints@ == flatten_groups(old(self).constraints@),
            objective_matches(
                m.objective,
                old(self).preferences@,
                old(self).rem_hours@,
                old(self).turn_hours@,
                old(self).num_workers as int,
                old(self).num_days as int,
                old(self).num_shifts as int,
            ),
            final(self).constraints@.len() == 0,
            final(self).vars@.len() == 0,
            final(self).rem_hours == old(self).rem_hours,
            final(self).preferences == old(self).preferences,
            final(self).turn_hours == old(self).turn_hours,
            final(self).num_workers == old(self).num_workers,
            final(self).num_days == old(self).num_days,
            final(self).num_shifts == old(self).num_shifts,
    {
        let objective = default_objective_function(self);
        let mut vars: Vec<VarKey> = Vec::new();
        core::mem::swap(&mut self.vars, &mut vars);
        let mut groups: Vec<Vec<LinConstraint>> = Vec::new();
        core::mem::swap(&mut self.constraints, &mut groups);
        let ghost orig = groups@;
        let ghost nv = old(self).num_vars_spec();
        let mut flat: Vec<LinConstraint> = Vec::new();
        while groups.len() > 0
            invariant
                flatten_groups(orig) =~= flat@ + flatten_groups(groups@),
                forall|p: int| 0 <= p < flat@.len() ==> constraint_wf(#[trigger] flat@[p], nv),
                forall|k: int, c: int|
                    0 <= k < groups@.len() && 0 <= c < (#[trigger] groups@[k])@.len()
                        ==> constraint_wf(#[trigger] groups@[k]@[c], nv),
            decreases groups.len(),
        {
            let ghost groups_before = groups@;
            let mut g = groups.remove(0);
            proof {
                assert(groups@ =~= groups_before.subrange(1, groups_before.len() as int));
                assert(flatten_groups(groups_before) == g@ + flatten_groups(groups@));
            }
            while g.len() > 0
                invariant
                    flatten_groups(orig) =~= flat@ + (g@ + flatten_groups(groups@)),
                    forall|p: int| 0 <= p < flat@.len() ==> constraint_wf(#[trigger] flat@[p], nv),
                    forall|p: int| 0 <= p < g@.len() ==> constraint_wf(#[trigger] g@[p], nv),
                    forall|k: int, c: int|
                        0 <= k < groups@.len() && 0 <= c < (#[trigger] groups@[k])@.len()
                            ==> constraint_wf(#[trigger] groups@[k]@[c], nv),
                decreases g.len(),
            {
                let ghost g_before = g@;
                let ghost flat_before = flat@;
                let c = g.remove(0);
                flat.push(c);
                proof {
                    assert(flat@ + (g@ + flatten_groups(groups@)) =~= flat_before + (g_before
                        + flatten_groups(groups@)));
                }
            }
        }
        let m = Model {
            num_workers: self.num_workers,
            num_days: self.num_days,
            num_shifts: self.num_shifts,
            vars,
            constraints: flat,
            objective,
        };
        proof {
            let nd = m.num_days as int;
            let ns = m.num_shifts as int;
            assert forall|i: int, d: int, s: int|
                0 <= i < m.num_workers && 0 <= d < m.num_days && 0 <= s
                    < m.num_shifts implies {
                let j = #[trigger] var_index(i, d, s, nd, ns);
                &&& 0 <= j < m.vars.len()
                &&& m.vars[j].worker == i
                &&& m.vars[j].day == d
                &&& m.vars[j].turn == s
            } by {
                assert(0 <= var_index(i, d, s, nd, ns) < m.num_workers * nd * ns)
                    by (nonlinear_arith)
                    requires
                        0 <= i < m.num_workers,
                        0 <= d < nd,
                        0 <= s < ns,
                ;
                lemma_var_index_inverse(i, d, s, nd, ns);
            }
        }
        m
    }
}

/// Whether the index-pair preference list contains the slot (d, s).
pub open spec fn pair_prefers(prefs: Seq<(usize, usize)>, d: int, s: int) -> bool {
    exists|k: int| 0 <= k < prefs.len() && (#[trigger] prefs[k]).0 == d && prefs[k].1 == s
}

/// Every listed pair lies on the (num_days x num_shifts) grid.
pub open spec fn pairs_valid(prefs: Seq<Vec<(usize, usize)>>, nd: int, ns: int) -> bool {
    forall|i: int, k: int|
        0 <= i < prefs.len() && 0 <= k < (#[trigger] prefs[i])@.len() ==> (#[trigger] prefs[i]@[
            k
        ]).0 < nd && prefs[i]@[k].1 < ns
}

/// Linear scan for an index pair naming the slot (d, s).
fn pair_in(prefs: &Vec<(usize, usize)>, d: usize, s: usize) -> (r: bool)
    ensures
        r == pair_prefers(prefs@, d as int, s as int),
{
    let mut k: usize = 0;
    while k < prefs.len()
        invariant
            0 <= k <= prefs.len(),
            forall|p: int|
                0 <= p < k ==> !((#[trigger] prefs@[p]).0 == d && prefs@[p].1 == s),
        decreases prefs.len() - k,
    {
        if prefs[k].0 == d && prefs[k].1 == s {
            return true;
        }
        k = k + 1;
    }
    false
}

/// Encodes per-worker (day, shift) index pairs into the boolean preference
/// matrix, rejecting any pair outside the grid before any model is built.
pub fn encode_preferences(
    preferences: &Vec<Vec<(usize, usize)>>,
    num_days: usize,
    num_shifts: usize,
) -> (r: Result<Vec<Vec<Vec<bool>>>, SchedulingError>)
    ensures
        r is Ok <==> pairs_valid(preferences@, num_days as int, num_shifts as int),
        r matches Ok(m) ==> {
            &&& m@.len() == preferences@.len()
            &&& forall|i: int| 0 <= i < m@.len() ==> (#[trigger] m@[i])@.len() == num_days
            &&& forall|i: int, d: int|
                0 <= i < m@.len() && 0 <= d < num_days ==> (#[trigger] m@[i]@[d])@.len()
                    == num_shifts
            &&& forall|i: int, d: int, s: int|
                0 <= i < m@.len() && 0 <= d < num_days && 0 <= s < num_shifts
                    ==> #[trigger] m@[i]@[d]@[s] == pair_prefers(preferences[i]@, d, s)
        },
        r matches Err(e) ==> {
            &&& e matches SchedulingError::InvalidPreference { worker, day, turn }
            &&& match e {
                SchedulingError::InvalidPreference { worker, day, turn } => {
                    &&& worker < preferences@.len()
                    &&& pair_prefers(preferences[worker as int]@, day as int, turn as int)
                    &&& (day >= num_days || turn >= num_shifts)
                },
                _ => false,
            }
        },
{
    let mut i: usize = 0;
    while i < preferences.len()
        invariant
            0 <= i <= preferences.len(),
            forall|p: int, k: int|
                0 <= p < i && 0 <= k < (#[trigger] preferences@[p])@.len() ==> (
                #[trigger] preferences@[p]@[k]).0 < num_days && preferences@[p]@[k].1 < num_shifts,
        decreases preferences.len() - i,
    {
        let worker_prefs = &preferences[i];
        let mut k: usize = 0;
        while k < worker_prefs.len()
            invariant
                0 <= k <= worker_prefs.len(),
                worker_prefs == &preferences[i as int],
                i < preferences.len(),
                forall|q: int|
                    0 <= q < k ==> (#[trigger] worker_prefs@[q]).0 < num_days
                        && worker_prefs@[q].1 < num_shifts,
            decreases worker_prefs.len() - k,
        {
            let (day, turn) = worker_prefs[k];
            if day >= num_days || turn >= num_shifts {
                return Err(SchedulingError::InvalidPreference { worker: i, day, turn });
            }
            k = k + 1;
        }
        i = i + 1;
    }
    let mut matrix: Vec<Vec<Vec<bool>>> = Vec::new();
    let mut i: usize = 0;
    while i < preferences.len()
        invariant
            0 <= i <= preferences.len(),
            matrix@.len() == i,
            forall|p: int| 0 <= p < i ==> (#[trigger] matrix@[p])@.len() == num_days,
            forall|p: int, d: int|
                0 <= p < i && 0 <= d < num_days ==> (#[trigger] matrix@[p]@[d])@.len()
                    == num_shifts,
            forall|p: int, d: int, s: int|
                0 <= p < i && 0 <= d < num_days && 0 <= s < num_shifts
                    ==> #[trigger] matrix@[p]@[d]@[s] == pair_prefers(preferences[p]@, d, s),
        decreases preferences.len() - i,
    {
        let mut grid: Vec<Vec<bool>> = Vec::new();
        let mut d: usize = 0;
        while d < num_days
            invariant
                0 <= d <= num_days,
                i < preferences.len(),
                grid@.len() == d,
                forall|q: int| 0 <= q < d ==> (#[trigger] grid@[q])@.len() == num_shifts,
                forall|q: int, s: int|
                    0 <= q < d && 0 <= s < num_shifts ==> #[trigger] grid@[q]@[s] == pair_prefers(
                        preferences[i as int]@,
                        q,
                        s,
                    ),
            decreases num_days - d,
        {
            let mut row: Vec<bool> = Vec::new();
            let mut s: usize = 0;
            while s < num_shifts
                invariant
                    0 <= s <= num_shifts,
                    i < preferences.len(),
                    d < num_days,
                    row@.len() == s,
                    forall|q: int|
                        0 <= q < s ==> #[trigger] row@[q] == pair_prefers(
                            preferences[i as int]@,
                            d as int,
                            q,
                        ),
                decreases num_shifts - s,
            {
                row.push(pair_in(&preferences[i], d, s));
                s = s + 1;
            }
            grid.push(row);
            d = d + 1;
        }
        matrix.push(grid);
        i = i + 1;
    }
    Ok(matrix)
}

/// When a whole group went into the flattened constraint list and a solution
/// satisfies the list, it satisfies every constraint of the group.
pub proof fn lemma_group_satisfied(
    gs: Seq<Vec<LinConstraint>>,
    flat: Seq<LinConstraint>,
    a: Seq<u8>,
    k: int,
)
    requires
        flat == flatten_groups(gs),
        0 <= k < gs.len(),
        forall|p: int| 0 <= p < flat.len() ==> satisfies(#[trigger] flat[p], a),
    ensures
        forall|c: int| 0 <= c < gs[k]@.len() ==> satisfies(#[trigger] gs[k]@[c], a),
{
    assert forall|c: int| 0 <= c < gs[k]@.len() implies satisfies(#[trigger] gs[k]@[c], a) by {
        lemma_flatten_groups_contains(gs, k, c);
        let p = choose|p: int| 0 <= p < flat.len() && flat[p] == gs[k]@[c];
        assert(satisfies(flat[p], a));
    }
}

/// Coverage invariant, stated over an assembled model: in every feasible
/// solution of a model whose constraints took in a coverage family, each
/// (day, shift) slot is covered by exactly one worker.
pub proof fn lemma_feasible_covers_each_slot(
    m: Model,
    gs: Seq<Vec<LinConstraint>>,
    k: int,
    a: Seq<u8>,
    d: int,
    s: int,
)
    requires
        m.constraints@ == flatten_groups(gs),
        0 <= k < gs.len(),
        coverage_group(gs[k]@, m.num_workers as int, m.num_days as int, m.num_shifts as int),
        m.feasible_for(a),
        0 <= d < m.num_days,
        0 <= s < m.num_shifts,
    ensures
        slot_workers(a, d, s, m.num_days as int, m.num_shifts as int, m.num_workers as int) == 1,
        exists|i: int|
            0 <= i < m.num_workers && a[var_index(
                i,
                d,
                s,
                m.num_days as int,
                m.num_shifts as int,
            )] == 1,
        forall|i1: int, i2: int|
            0 <= i1 < m.num_workers && 0 <= i2 < m.num_workers && a[var_index(
                i1,
                d,
                s,
                m.num_days as int,
                m.num_shifts as int,
            )] == 1 && a[var_index(i2, d, s, m.num_days as int, m.num_shifts as int)] == 1 ==> i1
                == i2,
{
    lemma_group_satisfied(gs, m.constraints@, a, k);
    lemma_coverage_exactly_one(
        gs[k]@,
        a,
        m.num_workers as int,
        m.num_days as int,
        m.num_shifts as int,
        d,
        s,
    );
}

/// Hour-bound invariant, stated over an assembled model: in every feasible
/// solution of a model whose constraints took in an hour-bound family, each
/// worker's total assigned-slot hours lie within [min, max] inclusive.
pub proof fn lemma_feasible_respects_hour_bounds(
    m: Model,
    gs: Seq<Vec<LinConstraint>>,
    k: int,
    a: Seq<u8>,
    hours: Seq<Vec<i64>>,
    min: int,
    max: int,
    i: int,
)
    requires
        m.constraints@ == flatten_groups(gs),
        0 <= k < gs.len(),
        hour_bounds_group(
            gs[k]@,
            hours,
            min,
            max,
            m.num_workers as int,
            m.num_days as int,
            m.num_shifts as int,
        ),
        m.feasible_for(a),
        0 <= i < m.num_workers,
        0 < m.num_days,
        0 < m.num_shifts,
    ensures
        min <= worker_hours(a, hours, i, m.num_days as int, m.num_shifts as int) <= max,
{
    lemma_group_satisfied(gs, m.constraints@, a, k);
    lemma_hours_within_bounds(
        gs[k]@,
        a,
        hours,
        min,
        max,
        m.num_workers as int,
        m.num_days as int,
        m.num_shifts as int,
        i,
    );
}

/// The dot product of slot (d, s)'s coverage row over the first `i` worker
/// blocks counts those workers' variables on the slot.
proof fn lemma_coverage_dot(
    coeffs: Seq<i64>,
    a: Seq<u8>,
    d: int,
    s: int,
    nw: int,
    nd: int,
    ns: int,
    i: int,
)
    requires
        0 <= d < nd,
        0 <= s < ns,
        coeffs.len() == nw * (nd * ns),
        forall|j: int|
            0 <= j < coeffs.len() ==> #[trigger] coeffs[j] == coverage_coeff(j, d, s, nd, ns),
        0 <= i <= nw,
    ensures
        dot_range(coeffs, a, 0, i * (nd * ns)) == slot_workers(a, d, s, nd, ns, i),
    decreases i,
{
    let b = nd * ns;
    if i == 0 {
        assert(0 * b == 0) by (nonlinear_arith);
    } else {
        lemma_coverage_dot(coeffs, a, d, s, nw, nd, ns, i - 1);
        let lo = (i - 1) * b;
        let hi = i * b;
        let p = var_index(i - 1, d, s, nd, ns);
        assert(lo + b == hi && 0 <= lo && lo <= p < hi && hi <= nw * b && p == lo + d * ns + s)
            by (nonlinear_arith)
            requires
                b == nd * ns,
                0 <= d < nd,
                0 <= s < ns,
                1 <= i <= nw,
                lo == (i - 1) * b,
                hi == i * b,
                p == (i - 1) * nd * ns + d * ns + s,
        ;
        assert forall|j: int| lo <= j < hi && j != p implies coeffs[j] == 0 by {
            lemma_block_projections(j, i - 1, nd, ns);
            if day_of(j, nd, ns) == d && turn_of(j, ns) == s {
                assert(j == var_index(i - 1, d, s, nd, ns));
            }
        }
        lemma_var_index_inverse(i - 1, d, s, nd, ns);
        assert(coeffs[p] == 1);
        lemma_dot_range_single(coeffs, a, lo, hi, p);
        lemma_dot_range_split(coeffs, a, 0, lo, hi);
    }
}

/// The per-slot worker count only grows with the number of workers counted.
proof fn lemma_slot_workers_mono(
    a: Seq<u8>,
    d: int,
    s: int,
    nd: int,
    ns: int,
    lo: int,
    hi: int,
)
    requires
        0 <= lo <= hi,
    ensures
        slot_workers(a, d, s, nd, ns, lo) <= slot_workers(a, d, s, nd, ns, hi),
    decreases hi - lo,
{
    if lo < hi {
        lemma_slot_workers_mono(a, d, s, nd, ns, lo, hi - 1);
    }
}

/// A positive per-slot worker count names at least one assigned worker.
proof fn lemma_slot_workers_find(a: Seq<u8>, d: int, s: int, nd: int, ns: int, i: int)
    requires
        slot_workers(a, d, s, nd, ns, i) >= 1,
    ensures
        exists|p: int| 0 <= p < i && a[var_index(p, d, s, nd, ns)] >= 1,
    decreases i,
{
    if i > 0 {
        if a[var_index(i - 1, d, s, nd, ns)] >= 1 {
            assert(0 <= i - 1 < i && a[var_index(i - 1, d, s, nd, ns)] >= 1);
        } else {
            lemma_slot_workers_find(a, d, s, nd, ns, i - 1);
        }
    }
}

/// Coverage invariant: in a binary assignment that satisfies an active
/// coverage family, every (day, shift) slot is taken by exactly one worker —
/// the slot's variables sum to 1, some worker is assigned, and no two are.
pub proof fn lemma_coverage_exactly_one(
    g: Seq<LinConstraint>,
    a: Seq<u8>,
    nw: int,
    nd: int,
    ns: int,
    d: int,
    s: int,
)
    requires
        coverage_group(g, nw, nd, ns),
        forall|k: int| 0 <= k < g.len() ==> satisfies(#[trigger] g[k], a),
        a.len() == nw * nd * ns,
        0 <= nw,
        is_binary(a),
        0 <= d < nd,
        0 <= s < ns,
    ensures
        slot_workers(a, d, s, nd, ns, nw) == 1,
        exists|i: int| 0 <= i < nw && a[var_index(i, d, s, nd, ns)] == 1,
        forall|i1: int, i2: int|
            0 <= i1 < nw && 0 <= i2 < nw && a[var_index(i1, d, s, nd, ns)] == 1 && a[var_index(
                i2,
                d,
                s,
                nd,
                ns,
            )] == 1 ==> i1 == i2,
{
    let k = d * ns + s;
    assert(0 <= k < nd * ns && nw * nd * ns == nw * (nd * ns)) by (nonlinear_arith)
        requires
            0 <= d < nd,
            0 <= s < ns,
            k == d * ns + s,
    ;
    lemma_fundamental_div_mod_converse(k, ns, d, s);
    let c = g[k];
    lemma_coverage_dot(c.coeffs@, a, d, s, nw, nd, ns, nw);
    assert(slot_workers(a, d, s, nd, ns, nw) == 1);
    lemma_slot_workers_find(a, d, s, nd, ns, nw);
    let p = choose|p: int| 0 <= p < nw && a[var_index(p, d, s, nd, ns)] >= 1;
    assert(0 <= var_index(p, d, s, nd, ns) < nw * nd * ns) by (nonlinear_arith)
        requires
            0 <= p < nw,
            0 <= d < nd,
            0 <= s < ns,
    ;
    assert(a[var_index(p, d, s, nd, ns)] == 1);
    assert forall|i1: int, i2: int|
        0 <= i1 < nw && 0 <= i2 < nw && a[var_index(i1, d, s, nd, ns)] == 1 && a[var_index(
            i2,
            d,
            s,
            nd,
            ns,
        )] == 1 implies i1 == i2 by {
        if i1 != i2 {
            let fst = if i1 < i2 {
                i1
            } else {
                i2
            };
            let snd = if i1 < i2 {
                i2
            } else {
                i1
            };
            lemma_slot_workers_mono(a, d, s, nd, ns, 0, fst);
            lemma_slot_workers_mono(a, d, s, nd, ns, fst + 1, snd);
            lemma_slot_workers_mono(a, d, s, nd, ns, snd + 1, nw);
            assert(slot_workers(a, d, s, nd, ns, nw) >= 2);
        }
    }
}

/// The dot product of worker `w`'s hour row over the first `k` offsets of
/// the worker's block sums the taken slots' hours.
proof fn lemma_hour_dot(
    coeffs: Seq<i64>,
    a: Seq<u8>,
    hours: Seq<Vec<i64>>,
    w: int,
    nw: int,
    nd: int,
    ns: int,
    k: int,
)
    requires
        0 <= w < nw,
        0 < nd,
        0 < ns,
        coeffs.len() == nw * (nd * ns),
        forall|j: int|
            0 <= j < coeffs.len() ==> #[trigger] coeffs[j] == hour_coeff(j, w, hours, nd, ns),
        0 <= k <= nd * ns,
    ensures
        dot_range(coeffs, a, w * (nd * ns), w * (nd * ns) + k) == worker_slot_hours(
            a,
            hours,
            w,
            nd,
            ns,
            k,
        ),
    decreases k,
{
    let b = nd * ns;
    let lo = w * b;
    if k > 0 {
        lemma_hour_dot(coeffs, a, hours, w, nw, nd, ns, k - 1);
        let j = lo + (k - 1);
        assert(0 <= lo && lo + k <= lo + b && lo + b <= nw * b) by (nonlinear_arith)
            requires
                b == nd * ns,
                0 <= w < nw,
                0 < k <= b,
                lo == w * b,
        ;
        lemma_dot_range_split(coeffs, a, lo, lo + (k - 1), lo + k);
        assert(dot_range(coeffs, a, j + 1, j + 1) == 0);
        assert(dot_range(coeffs, a, j, j + 1) == coeffs[j] * a[j]);
        lemma_block_projections(j, w, nd, ns);
        assert(coeffs[j] == hours[(k - 1) / ns][(k - 1) % ns]);
    }
}

/// The full dot product of worker `w`'s hour row is that worker's total
/// assigned hours: the row vanishes outside the worker's block.
proof fn lemma_hour_row_dot(
    coeffs: Seq<i64>,
    a: Seq<u8>,
    hours: Seq<Vec<i64>>,
    w: int,
    nw: int,
    nd: int,
    ns: int,
)
    requires
        0 <= w < nw,
        0 < nd,
        0 < ns,
        coeffs.len() == nw * (nd * ns),
        forall|j: int|
            0 <= j < coeffs.len() ==> #[trigger] coeffs[j] == hour_coeff(j, w, hours, nd, ns),
    ensures
        dot(coeffs, a) == worker_hours(a, hours, w, nd, ns),
{
    let b = nd * ns;
    assert(0 < b && 0 <= w * b && w * b + b == (w + 1) * b && (w + 1) * b <= nw * b)
        by (nonlinear_arith)
        requires
            b == nd * ns,
            0 < nd,
            0 < ns,
            0 <= w < nw,
    ;
    assert forall|j: int| 0 <= j < w * b implies coeffs[j] == 0 by {
        if w > 0 {
            assert(w * b - 1 == (w - 1) * b + (b - 1)) by (nonlinear_arith);
            lemma_fundamental_div_mod_converse(w * b - 1, b, w - 1, b - 1);
            lemma_div_is_ordered(j, w * b - 1, b);
            lemma_div_is_ordered(0, j, b);
            assert(worker_of(j, nd, ns) < w);
        }
    }
    assert forall|j: int| (w + 1) * b <= j < coeffs.len() implies coeffs[j] == 0 by {
        assert((w + 1) * b == (w + 1) * b + 0);
        lemma_fundamental_div_mod_converse((w + 1) * b, b, w + 1, 0);
        lemma_div_is_ordered((w + 1) * b, j, b);
        assert(worker_of(j, nd, ns) >= w + 1);
    }
    lemma_dot_range_split(coeffs, a, 0, w * b, coeffs.len() as int);
    lemma_dot_range_split(coeffs, a, w * b, (w + 1) * b, coeffs.len() as int);
    lemma_dot_range_zero(coeffs, a, 0, w * b);
    lemma_dot_range_zero(coeffs, a, (w + 1) * b, coeffs.len() as int);
    lemma_hour_dot(coeffs, a, hours, w, nw, nd, ns, b);
}

/// Hour-bound invariant: in any assignment that satisfies an active
/// hour-bound family, every worker's total assigned hours lie within
/// [min, max] inclusive.
pub proof fn lemma_hours_within_bounds(
    g: Seq<LinConstraint>,
    a: Seq<u8>,
    hours: Seq<Vec<i64>>,
    min: int,
    max: int,
    nw: int,
    nd: int,
    ns: int,
    i: int,
)
    requires
        hour_bounds_group(g, hours, min, max, nw, nd, ns),
        forall|k: int| 0 <= k < g.len() ==> satisfies(#[trigger] g[k], a),
        a.len() == nw * nd * ns,
        0 <= i < nw,
        0 < nd,
        0 < ns,
    ensures
        min <= worker_hours(a, hours, i, nd, ns) <= max,
{
    assert(nw * nd * ns == nw * (nd * ns)) by (nonlinear_arith);
    lemma_fundamental_div_mod_converse(2 * i, 2, i, 0);
    lemma_fundamental_div_mod_converse(2 * i + 1, 2, i, 1);
    let c_min = g[2 * i];
    let c_max = g[2 * i + 1];
    lemma_hour_row_dot(c_min.coeffs@, a, hours, i, nw, nd, ns);
    lemma_hour_row_dot(c_max.coeffs@, a, hours, i, nw, nd, ns);
    assert(satisfies(c_min, a));
    assert(satisfies(c_max, a));
}

} // verus!
