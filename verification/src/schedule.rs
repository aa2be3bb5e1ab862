//! The result decoder: turns the engine's raw 0/1 assignment back into a
//! per-worker weekly calendar with total hours worked and the updated
//! remaining-hours balance. A value that is not exactly 0 or 1 is a
//! consistency failure, never rounded away.
use crate::model::{
    is_binary, var_index, worker_hours, worker_slot_hours, LinConstraint, Model, MAX_HOURS_VALUE,
};
use crate::scheduler::{
    flatten_groups, hour_bounds_group, lemma_feasible_respects_hour_bounds, Scheduler,
    SchedulingError,
};
use vstd::prelude::*;

verus! {

/// One worker's decoded week: the assigned (day, shift) grid, the hours this
/// period, and the balance after subtracting them.
pub struct WorkerSchedule {
    pub assigned: Vec<Vec<bool>>,
    pub hours_worked: i64,
    pub remaining_after: i64,
}

/// The decoded schedule, one entry per worker. Terminal artifact of a solve:
/// produced whole after a successful solve, never partially.
pub struct Schedule {
    pub workers: Vec<WorkerSchedule>,
}

/// What a correct decode of `a` against the formulator state `s` looks like,
/// entry by entry.
pub open spec fn worker_entry_ok(
    w: WorkerSchedule,
    a: Seq<u8>,
    hours: Seq<Vec<i64>>,
    rem: Seq<i64>,
    i: int,
    nd: int,
    ns: int,
) -> bool {
    &&& w.assigned.len() == nd
    &&& forall|d: int| 0 <= d < nd ==> (#[trigger] w.assigned[d])@.len() == ns
    &&& forall|d: int, s: int|
        0 <= d < nd && 0 <= s < ns ==> #[trigger] w.assigned[d]@[s] == (a[var_index(
            i,
            d,
            s,
            nd,
            ns,
        )] == 1)
    &&& w.hours_worked == worker_hours(a, hours, i, nd, ns)
    &&& w.remaining_after == rem[i] - worker_hours(a, hours, i, nd, ns)
}

/// The decoder's full contract: success exactly on binary assignments, a
/// complete and correct entry for every worker, and the one possible error.
pub open spec fn decode_post(
    s: Scheduler,
    a: Seq<u8>,
    r: Result<Schedule, SchedulingError>,
) -> bool {
    &&& (r is Ok <==> is_binary(a))
    &&& (r matches Ok(sch) ==> {
        &&& sch.workers.len() == s.num_workers
        &&& forall|i: int|
            0 <= i < s.num_workers ==> worker_entry_ok(
                #[trigger] sch.workers[i],
                a,
                s.turn_hours@,
                s.rem_hours@,
                i,
                s.num_days as int,
                s.num_shifts as int,
            )
    })
    &&& (r matches Err(e) ==> e is NonIntegralSolution)
}

/// Hours one decoded slot contributes: the slot's hour count from the table
/// when the decision value is exactly 1, else 0.
pub fn get_hours_by_day_turn(value: u8, day: usize, turn: usize, hours: &Vec<Vec<i64>>) -> (r:
    i64)
    requires
        day < hours.len(),
        turn < hours[day as int]@.len(),
    ensures
        r == (if value == 1 {
            hours[day as int]@[turn as int]
        } else {
            0i64
        }),
{
    if value == 1 {
        hours[day][turn]
    } else {
        0
    }
}

/// Decodes a raw assignment: validates that every value is exactly 0 or 1,
/// then computes each worker's calendar, hours worked, and new balance.
pub fn decode_solution(scheduler: &Scheduler, assignment: &Vec<u8>) -> (r: Result<
    Schedule,
    SchedulingError,
>)
    requires
        scheduler.data_wf(),
        assignment.len() == scheduler.num_vars_spec(),
    ensures
        decode_post(*scheduler, assignment@, r),
{
    let mut j: usize = 0;
    while j < assignment.len()
        invariant
            0 <= j <= assignment.len(),
            forall|p: int| 0 <= p < j ==> assignment@[p] == 0 || assignment@[p] == 1,
        decreases assignment.len() - j,
    {
        if assignment[j] > 1 {
            return Err(SchedulingError::NonIntegralSolution);
        }
        j = j + 1;
    }
    let nw = scheduler.num_workers;
    let nd = scheduler.num_days;
    let ns = scheduler.num_shifts;
    proof {
        assert(nw * nd * ns == nw * (nd * ns)) by (nonlinear_arith);
    }
    let block = nd * ns;
    let mut workers: Vec<WorkerSchedule> = Vec::new();
    let mut i: usize = 0;
    while i < nw
        invariant
            0 <= i <= nw,
            scheduler.data_wf(),
            nw == scheduler.num_workers,
            nd == scheduler.num_days,
            ns == scheduler.num_shifts,
            block == nd * ns,
            assignment.len() == nw * nd * ns,
            assignment.len() == nw * block,
            is_binary(assignment@),
            workers@.len() == i,
            forall|p: int|
                0 <= p < i ==> worker_entry_ok(
                    #[trigger] workers@[p],
                    assignment@,
                    scheduler.turn_hours@,
                    scheduler.rem_hours@,
                    p,
                    nd as int,
                    ns as int,
                ),
        decreases nw - i,
    {
        proof {
            assert(i * block + block <= nw * block && 0 <= i * block) by (nonlinear_arith)
                requires
                    0 <= i < nw,
                    0 <= block,
            ;
        }
        let base = i * block;
        let mut hours_total: i64 = 0;
        let mut k: usize = 0;
        while k < block
            invariant
                0 <= k <= block,
                scheduler.data_wf(),
                nd == scheduler.num_days,
                ns == scheduler.num_shifts,
                block == nd * ns,
                0 <= base,
                base == i as int * block,
                base + block <= assignment.len(),
                is_binary(assignment@),
                hours_total == worker_slot_hours(
                    assignment@,
                    scheduler.turn_hours@,
                    i as int,
                    nd as int,
                    ns as int,
                    k as int,
                ),
                0 <= hours_total <= (k as int) * MAX_HOURS_VALUE,
            decreases block - k,
        {
            proof {
                assert(0 < block ==> 0 < ns && 0 < nd) by (nonlinear_arith)
                    requires
                        block == nd * ns,
                        0 <= nd,
                        0 <= ns,
                ;
            }
            let kd = k / ns;
            let ks = k % ns;
            proof {
                assert(block - 1 == (nd - 1) * ns + (ns - 1)) by (nonlinear_arith)
                    requires
                        block == nd * ns,
                        0 < nd,
                        0 < ns,
                ;
                vstd::arithmetic::div_mod::lemma_fundamental_div_mod_converse(
                    block as int - 1,
                    ns as int,
                    nd as int - 1,
                    ns as int - 1,
                );
                vstd::arithmetic::div_mod::lemma_div_is_ordered(
                    k as int,
                    block as int - 1,
                    ns as int,
                );
            }
            let slot_hours = get_hours_by_day_turn(
                assignment[base + k],
                kd,
                ks,
                &scheduler.turn_hours,
            );
            proof {
                let h: int = scheduler.turn_hours@[kd as int]@[ks as int] as int;
                let av = assignment@[base as int + k as int];
                assert(av * h == (if av == 1 {
                    h
                } else {
                    0int
                })) by (nonlinear_arith)
                    requires
                        av == 0 || av == 1,
                ;
            }
            hours_total = hours_total + slot_hours;
            k = k + 1;
        }
        let balance = scheduler.rem_hours[i];
        let mut assigned: Vec<Vec<bool>> = Vec::new();
        let mut d: usize = 0;
        while d < nd
            invariant
                0 <= d <= nd,
                scheduler.data_wf(),
                nd == scheduler.num_days,
                ns == scheduler.num_shifts,
                block == nd * ns,
                0 <= base,
                base == i as int * block,
                base + block <= assignment.len(),
                assigned@.len() == d,
                forall|q: int| 0 <= q < d ==> (#[trigger] assigned@[q])@.len() == ns,
                forall|q: int, s: int|
                    0 <= q < d && 0 <= s < ns ==> #[trigger] assigned@[q]@[s] == (assignment@[
                        var_index(i as int, q, s, nd as int, ns as int)
                    ] == 1),
            decreases nd - d,
        {
            let mut row: Vec<bool> = Vec::new();
            let mut s: usize = 0;
            while s < ns
                invariant
                    0 <= s <= ns,
                    0 <= d < nd,
                    block == nd * ns,
                    0 <= base,
                    base == i as int * block,
                    base + block <= assignment.len(),
                    row@.len() == s,
                    forall|q: int|
                        0 <= q < s ==> #[trigger] row@[q] == (assignment@[var_index(
                            i as int,
                            d as int,
                            q,
                            nd as int,
                            ns as int,
                        )] == 1),
                decreases ns - s,
            {
                proof {
                    assert(0 <= d * ns + s && d * ns + s < block && i as int * block + (d * ns + s)
                        == var_index(i as int, d as int, s as int, nd as int, ns as int))
                        by (nonlinear_arith)
                        requires
                            0 <= d < nd,
                            0 <= s < ns,
                            block == nd * ns,
                    ;
                }
                let offset = d * ns + s;
                row.push(assignment[base + offset] == 1);
                s = s + 1;
            }
            assigned.push(row);
            d = d + 1;
        }
        workers.push(
            WorkerSchedule { assigned, hours_worked: hours_total, remaining_after: balance
                - hours_total },
        );
        i = i + 1;
    }
    Ok(Schedule { workers })
}

/// End to end: decoding any feasible solution of a model whose constraints
/// took in an hour-bound family yields, for every worker, period hours
/// within [min, max] inclusive.
pub proof fn lemma_decoded_hours_within_bounds(
    s: Scheduler,
    m: Model,
    gs: Seq<Vec<LinConstraint>>,
    k: int,
    a: Seq<u8>,
    sch: Schedule,
    min: int,
    max: int,
    i: int,
)
    requires
        decode_post(s, a, Result::Ok(sch)),
        m.constraints@ == flatten_groups(gs),
        0 <= k < gs.len(),
        hour_bounds_group(
            gs[k]@,
            s.turn_hours@,
            min,
            max,
            m.num_workers as int,
            m.num_days as int,
            m.num_shifts as int,
        ),
        m.feasible_for(a),
        m.num_workers == s.num_workers,
        m.num_days == s.num_days,
        m.num_shifts == s.num_shifts,
        0 <= i < s.num_workers,
        0 < s.num_days,
        0 < s.num_shifts,
    ensures
        min <= sch.workers[i].hours_worked <= max,
{
    lemma_feasible_respects_hour_bounds(m, gs, k, a, s.turn_hours@, min, max, i);
}

/// Two schedules with the same calendars, hours and balances, entry by entry.
pub open spec fn same_schedule(x: Schedule, y: Schedule) -> bool {
    &&& x.workers.len() == y.workers.len()
    &&& forall|i: int|
        0 <= i < x.workers.len() ==> {
            let wx = #[trigger] x.workers[i];
            let wy = y.workers[i];
            &&& wx.hours_worked == wy.hours_worked
            &&& wx.remaining_after == wy.remaining_after
            &&& wx.assigned.len() == wy.assigned.len()
            &&& forall|d: int|
                0 <= d < wx.assigned.len() ==> (#[trigger] wx.assigned[d])@ == wy.assigned[d]@
        }
}

/// Decoding is idempotent: any two decodes of the same raw assignment
/// against the same formulator state succeed or fail together, and on
/// success produce identical schedules.
pub proof fn lemma_decode_deterministic(
    s: Scheduler,
    a: Seq<u8>,
    r1: Result<Schedule, SchedulingError>,
    r2: Result<Schedule, SchedulingError>,
)
    requires
        decode_post(s, a, r1),
        decode_post(s, a, r2),
    ensures
        r1 is Ok <==> r2 is Ok,
        (match (r1, r2) {
            (Result::Ok(s1), Result::Ok(s2)) => same_schedule(s1, s2),
            _ => true,
        }),
{
    match (r1, r2) {
        (Result::Ok(s1), Result::Ok(s2)) => {
            assert forall|i: int| 0 <= i < s1.workers.len() implies {
                let wx = #[trigger] s1.workers[i];
                let wy = s2.workers[i];
                &&& wx.hours_worked == wy.hours_worked
                &&& wx.remaining_after == wy.remaining_after
                &&& wx.assigned.len() == wy.assigned.len()
                &&& forall|d: int|
                    0 <= d < wx.assigned.len() ==> (#[trigger] wx.assigned[d])@ == wy.assigned[d]@
            } by {
                let wx = s1.workers[i];
                let wy = s2.workers[i];
                assert(worker_entry_ok(
                    wx,
                    a,
                    s.turn_hours@,
                    s.rem_hours@,
                    i,
                    s.num_days as int,
                    s.num_shifts as int,
                ));
                assert(worker_entry_ok(
                    wy,
                    a,
                    s.turn_hours@,
                    s.rem_hours@,
                    i,
                    s.num_days as int,
                    s.num_shifts as int,
                ));
                assert forall|d: int| 0 <= d < wx.assigned.len() implies (
                #[trigger] wx.assigned[d])@ == wy.assigned[d]@ by {
                    assert(wx.assigned[d]@ =~= wy.assigned[d]@);
                }
            }
        },
        _ => {},
    }
}

} // verus!
