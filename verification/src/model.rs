//! Linear optimization model built by the formulator: binary decision
//! variables (one per worker/day/shift triple, addressed by a flat index),
//! linear constraints, and a linear minimization objective.
//!
//! All hour quantities are whole hour counts held in `i64`. The numeric
//! bounds below keep every coefficient, dot product and objective value
//! inside `i64`.
use vstd::arithmetic::div_mod::{
    lemma_div_is_ordered, lemma_fundamental_div_mod, lemma_fundamental_div_mod_converse,
};
use vstd::prelude::*;

verus! {

/// Largest magnitude accepted for a single hour quantity (a shift length,
/// an hour quota, accrued hours): 2^20.
pub const MAX_HOURS_VALUE: i64 = 1048576;

/// Largest number of decision variables (and of workers) in one model: 2^20.
pub const MAX_VARIABLES: usize = 1048576;

/// Largest magnitude of a single linear coefficient: 2^41, enough for a
/// remaining-hours balance (at most 2 * 2^20 in magnitude) times a shift
/// length (at most 2^20).
pub const MAX_COEFF: i64 = 2199023255552;

/// Largest magnitude of the objective's constant term: 2^62, enough for
/// 2^20 workers each contributing a squared balance of at most 2^42.
pub const MAX_OBJ_CONSTANT: i64 = 4611686018427387904;

/// Comparison of a linear form against its right-hand side.
#[derive(Copy, Clone, PartialEq, Eq, Structural, Debug)]
pub enum LinCmp {
    EqualTo,
    AtLeast,
    AtMost,
}

/// One linear constraint: `sum_j coeffs[j] * x_j  cmp  rhs`.
pub struct LinConstraint {
    pub coeffs: Vec<i64>,
    pub cmp: LinCmp,
    pub rhs: i64,
}

/// Linear minimization objective: `constant + sum_j coeffs[j] * x_j`.
pub struct LinObjective {
    pub coeffs: Vec<i64>,
    pub constant: i64,
}

/// The (worker, day, shift) triple a decision variable stands for; keeps
/// every variable traceable back to its slot.
#[derive(Copy, Clone, PartialEq, Eq, Structural, Debug)]
pub struct VarKey {
    pub worker: usize,
    pub day: usize,
    pub turn: usize,
}

/// Flat index of the variable for worker `i`, day `d`, shift `s` in a model
/// with `nd` days and `ns` shifts per day.
pub open spec fn var_index(i: int, d: int, s: int, nd: int, ns: int) -> int {
    i * nd * ns + d * ns + s
}

/// Worker a flat variable index belongs to.
pub open spec fn worker_of(j: int, nd: int, ns: int) -> int {
    j / (nd * ns)
}

/// Day a flat variable index belongs to.
pub open spec fn day_of(j: int, nd: int, ns: int) -> int {
    (j % (nd * ns)) / ns
}

/// Shift a flat variable index belongs to.
pub open spec fn turn_of(j: int, ns: int) -> int {
    j % ns
}

/// `var_index` and the three projections above are mutually inverse over
/// the valid index ranges.
pub proof fn lemma_var_index_inverse(i: int, d: int, s: int, nd: int, ns: int)
    requires
        0 <= i,
        0 <= d < nd,
        0 <= s < ns,
    ensures
        worker_of(var_index(i, d, s, nd, ns), nd, ns) == i,
        day_of(var_index(i, d, s, nd, ns), nd, ns) == d,
        turn_of(var_index(i, d, s, nd, ns), ns) == s,
{
    let j = var_index(i, d, s, nd, ns);
    let block = nd * ns;
    let r = d * ns + s;
    assert(0 <= r < block && 0 < block && j == i * block + r) by (nonlinear_arith)
        requires
            0 <= i,
            0 <= d < nd,
            0 <= s < ns,
            j == i * nd * ns + d * ns + s,
            block == nd * ns,
            r == d * ns + s,
    ;
    lemma_fundamental_div_mod_converse(j, block, i, r);
    lemma_fundamental_div_mod_converse(r, ns, d, s);
    assert(j == (i * nd + d) * ns + s) by (nonlinear_arith)
        requires
            j == i * nd * ns + d * ns + s,
    ;
    lemma_fundamental_div_mod_converse(j, ns, i * nd + d, s);
}

/// Sum of `coeffs[j] * a[j]` over `lo <= j < hi`.
pub open spec fn dot_range(coeffs: Seq<i64>, a: Seq<u8>, lo: int, hi: int) -> int
    decreases hi - lo,
{
    if lo >= hi {
        0
    } else {
        coeffs[lo] * a[lo] + dot_range(coeffs, a, lo + 1, hi)
    }
}

/// Full dot product of a coefficient row with an assignment.
pub open spec fn dot(coeffs: Seq<i64>, a: Seq<u8>) -> int {
    dot_range(coeffs, a, 0, coeffs.len() as int)
}

/// A dot product over a range splits at any midpoint.
pub proof fn lemma_dot_range_split(coeffs: Seq<i64>, a: Seq<u8>, lo: int, mid: int, hi: int)
    requires
        lo <= mid <= hi,
    ensures
        dot_range(coeffs, a, lo, hi) == dot_range(coeffs, a, lo, mid) + dot_range(
            coeffs,
            a,
            mid,
            hi,
        ),
    decreases mid - lo,
{
    if lo < mid {
        lemma_dot_range_split(coeffs, a, lo + 1, mid, hi);
    }
}

/// A dot product over a range of zero coefficients is zero.
pub proof fn lemma_dot_range_zero(coeffs: Seq<i64>, a: Seq<u8>, lo: int, hi: int)
    requires
        forall|j: int| lo <= j < hi ==> coeffs[j] == 0,
    ensures
        dot_range(coeffs, a, lo, hi) == 0,
    decreases hi - lo,
{
    if lo < hi {
        lemma_dot_range_zero(coeffs, a, lo + 1, hi);
    }
}

/// A dot product over a range whose only nonzero coefficient sits at `p`
/// reduces to that single term.
pub proof fn lemma_dot_range_single(coeffs: Seq<i64>, a: Seq<u8>, lo: int, hi: int, p: int)
    requires
        lo <= p < hi,
        forall|j: int| lo <= j < hi && j != p ==> coeffs[j] == 0,
    ensures
        dot_range(coeffs, a, lo, hi) == coeffs[p] * a[p],
{
    lemma_dot_range_split(coeffs, a, lo, p, hi);
    lemma_dot_range_split(coeffs, a, p, p + 1, hi);
    lemma_dot_range_zero(coeffs, a, lo, p);
    lemma_dot_range_zero(coeffs, a, p + 1, hi);
}

/// Inside worker `w`'s block of flat indices, the projections are the
/// worker itself and the division of the offset into day and shift.
pub proof fn lemma_block_projections(j: int, w: int, nd: int, ns: int)
    requires
        0 <= w,
        0 < nd,
        0 < ns,
        w * (nd * ns) <= j < w * (nd * ns) + nd * ns,
    ensures
        worker_of(j, nd, ns) == w,
        day_of(j, nd, ns) == (j - w * (nd * ns)) / ns,
        0 <= day_of(j, nd, ns) < nd,
        turn_of(j, ns) == (j - w * (nd * ns)) % ns,
        0 <= turn_of(j, ns) < ns,
        j == var_index(w, day_of(j, nd, ns), turn_of(j, ns), nd, ns),
{
    let b = nd * ns;
    assert(0 < b) by (nonlinear_arith)
        requires
            0 < nd,
            0 < ns,
            b == nd * ns,
    ;
    let r = j - w * b;
    lemma_fundamental_div_mod_converse(j, b, w, r);
    lemma_fundamental_div_mod(r, ns);
    let rd = r / ns;
    let rs = r % ns;
    assert(b - 1 == (nd - 1) * ns + (ns - 1)) by (nonlinear_arith)
        requires
            b == nd * ns,
    ;
    lemma_fundamental_div_mod_converse(b - 1, ns, nd - 1, ns - 1);
    lemma_div_is_ordered(r, b - 1, ns);
    lemma_div_is_ordered(0, r, ns);
    assert(j == (w * nd + rd) * ns + rs) by (nonlinear_arith)
        requires
            j == w * b + r,
            b == nd * ns,
            r == rd * ns + rs,
    ;
    lemma_fundamental_div_mod_converse(j, ns, w * nd + rd, rs);
    assert(var_index(w, rd, rs, nd, ns) == j) by (nonlinear_arith)
        requires
            j == w * b + r,
            b == nd * ns,
            r == rd * ns + rs,
    ;
}

/// Hours of the first `k` slots of worker `i`'s block that the assignment
/// marks as taken.
pub open spec fn worker_slot_hours(
    a: Seq<u8>,
    hours: Seq<Vec<i64>>,
    i: int,
    nd: int,
    ns: int,
    k: int,
) -> int
    decreases k,
{
    if k <= 0 {
        0
    } else {
        worker_slot_hours(a, hours, i, nd, ns, k - 1) + hours[(k - 1) / ns][(k - 1) % ns] * a[i
            * (nd * ns) + (k - 1)]
    }
}

/// Total hours the assignment gives worker `i`: the sum of the hour counts
/// of that worker's taken slots.
pub open spec fn worker_hours(a: Seq<u8>, hours: Seq<Vec<i64>>, i: int, nd: int, ns: int) -> int {
    worker_slot_hours(a, hours, i, nd, ns, nd * ns)
}

/// Number of the first `i` workers the assignment places on slot (d, s).
pub open spec fn slot_workers(a: Seq<u8>, d: int, s: int, nd: int, ns: int, i: int) -> int
    decreases i,
{
    if i <= 0 {
        0
    } else {
        slot_workers(a, d, s, nd, ns, i - 1) + a[var_index(i - 1, d, s, nd, ns)]
    }
}

/// An assignment is binary when every entry is 0 or 1.
pub open spec fn is_binary(a: Seq<u8>) -> bool {
    forall|j: int| 0 <= j < a.len() ==> a[j] == 0 || a[j] == 1
}

/// A constraint row is well formed for a model of `nv` variables: right
/// length and every coefficient within `MAX_COEFF`.
pub open spec fn constraint_wf(c: LinConstraint, nv: int) -> bool {
    &&& c.coeffs.len() == nv
    &&& forall|j: int| 0 <= j < nv ==> -MAX_COEFF <= #[trigger] c.coeffs[j] <= MAX_COEFF
    &&& -MAX_OBJ_CONSTANT <= c.rhs <= MAX_OBJ_CONSTANT
}

/// Whether an assignment satisfies one constraint.
pub open spec fn satisfies(c: LinConstraint, a: Seq<u8>) -> bool {
    match c.cmp {
        LinCmp::EqualTo => dot(c.coeffs@, a) == c.rhs,
        LinCmp::AtLeast => dot(c.coeffs@, a) >= c.rhs,
        LinCmp::AtMost => dot(c.coeffs@, a) <= c.rhs,
    }
}

/// An objective row is well formed for a model of `nv` variables.
pub open spec fn objective_wf(o: LinObjective, nv: int) -> bool {
    &&& o.coeffs.len() == nv
    &&& forall|j: int| 0 <= j < nv ==> -MAX_COEFF <= #[trigger] o.coeffs[j] <= MAX_COEFF
    &&& -MAX_OBJ_CONSTANT <= o.constant <= MAX_OBJ_CONSTANT
}

/// Dot product of a bounded coefficient row with a binary assignment.
fn dot_product(coeffs: &Vec<i64>, a: &Vec<u8>) -> (v: i64)
    requires
        coeffs.len() == a.len(),
        coeffs.len() <= MAX_VARIABLES,
        forall|j: int| 0 <= j < coeffs.len() ==> -MAX_COEFF <= #[trigger] coeffs[j] <= MAX_COEFF,
        is_binary(a@),
    ensures
        v == dot(coeffs@, a@),
        -(coeffs.len() as int) * MAX_COEFF <= v <= (coeffs.len() as int) * MAX_COEFF,
{
    let mut sum: i64 = 0;
    let mut k: usize = 0;
    while k < coeffs.len()
        invariant
            0 <= k <= coeffs.len(),
            coeffs.len() == a.len() <= MAX_VARIABLES,
            forall|j: int| 0 <= j < coeffs.len() ==> -MAX_COEFF <= #[trigger] coeffs[j]
                <= MAX_COEFF,
            is_binary(a@),
            sum == dot_range(coeffs@, a@, 0, k as int),
            -(k as int) * MAX_COEFF <= sum <= (k as int) * MAX_COEFF,
        decreases coeffs.len() - k,
    {
        proof {
            lemma_dot_range_split(coeffs@, a@, 0, k as int, k as int + 1);
            assert(dot_range(coeffs@, a@, k as int + 1, k as int + 1) == 0);
            assert(dot_range(coeffs@, a@, k as int, k as int + 1) == coeffs@[k as int] * a@[
                k as int
            ]);
        }
        if a[k] == 1 {
            sum = sum + coeffs[k];
        }
        k = k + 1;
    }
    sum
}

/// Whether a binary assignment satisfies one well-formed constraint.
fn constraint_satisfied(c: &LinConstraint, a: &Vec<u8>) -> (r: bool)
    requires
        constraint_wf(*c, a.len() as int),
        a.len() <= MAX_VARIABLES,
        is_binary(a@),
    ensures
        r == satisfies(*c, a@),
{
    let v = dot_product(&c.coeffs, a);
    match c.cmp {
        LinCmp::EqualTo => v == c.rhs,
        LinCmp::AtLeast => v >= c.rhs,
        LinCmp::AtMost => v <= c.rhs,
    }
}

/// The assembled optimization model handed to a solving engine: dimensions,
/// the variable index, the active constraints, and the objective.
pub struct Model {
    pub num_workers: usize,
    pub num_days: usize,
    pub num_shifts: usize,
    pub vars: Vec<VarKey>,
    pub constraints: Vec<LinConstraint>,
    pub objective: LinObjective,
}

impl Model {
    /// Number of decision variables: workers x days x shifts.
    pub open spec fn num_vars_spec(self) -> int {
        self.num_workers * self.num_days * self.num_shifts
    }

    /// Well-formedness: the variable index lists every (worker, day, shift)
    /// triple at its flat position, and every row is bounded.
    pub open spec fn wf(self) -> bool {
        &&& self.num_workers <= MAX_VARIABLES
        &&& self.num_vars_spec() <= MAX_VARIABLES
        &&& self.vars.len() == self.num_vars_spec()
        &&& forall|i: int, d: int, s: int|
            0 <= i < self.num_workers && 0 <= d < self.num_days && 0 <= s < self.num_shifts
                ==> {
                let j = #[trigger] var_index(i, d, s, self.num_days as int, self.num_shifts as int);
                &&& 0 <= j < self.vars.len()
                &&& self.vars[j].worker == i
                &&& self.vars[j].day == d
                &&& self.vars[j].turn == s
            }
        &&& forall|k: int|
            0 <= k < self.constraints.len() ==> constraint_wf(
                #[trigger] self.constraints[k],
                self.num_vars_spec(),
            )
        &&& objective_wf(self.objective, self.num_vars_spec())
    }

    /// Number of decision variables actually allocated.
    pub fn num_vars(&self) -> (n: usize)
        requires
            self.wf(),
        ensures
            n == self.num_vars_spec(),
    {
        self.vars.len()
    }

    /// An assignment is feasible for the model when it is binary, has one
    /// value per variable, and satisfies every constraint.
    pub open spec fn feasible_for(self, a: Seq<u8>) -> bool {
        &&& a.len() == self.num_vars_spec()
        &&& is_binary(a)
        &&& forall|k: int|
            0 <= k < self.constraints.len() ==> satisfies(#[trigger] self.constraints[k], a)
    }

    /// Decides feasibility of a candidate assignment.
    pub fn check_assignment(&self, a: &Vec<u8>) -> (r: bool)
        requires
            self.wf(),
        ensures
            r == self.feasible_for(a@),
    {
        if a.len() != self.num_vars() {
            return false;
        }
        let mut j: usize = 0;
        while j < a.len()
            invariant
                0 <= j <= a.len(),
                forall|p: int| 0 <= p < j ==> a@[p] == 0 || a@[p] == 1,
            decreases a.len() - j,
        {
            if a[j] > 1 {
                return false;
            }
            j = j + 1;
        }
        let mut k: usize = 0;
        while k < self.constraints.len()
            invariant
                self.wf(),
                a.len() == self.num_vars_spec(),
                is_binary(a@),
                0 <= k <= self.constraints.len(),
                forall|p: int| 0 <= p < k ==> satisfies(#[trigger] self.constraints[p], a@),
            decreases self.constraints.len() - k,
        {
            if !constraint_satisfied(&self.constraints[k], a) {
                return false;
            }
            k = k + 1;
        }
        true
    }

    /// Objective value of an assignment: constant plus the linear part.
    pub open spec fn objective_value_spec(self, a: Seq<u8>) -> int {
        self.objective.constant + dot(self.objective.coeffs@, a)
    }

    /// Evaluates the objective on a binary assignment.
    pub fn objective_value(&self, a: &Vec<u8>) -> (v: i64)
        requires
            self.wf(),
            a.len() == self.num_vars_spec(),
            is_binary(a@),
        ensures
            v == self.objective_value_spec(a@),
    {
        let linear = dot_product(&self.objective.coeffs, a);
        self.objective.constant + linear
    }
}

} // verus!
