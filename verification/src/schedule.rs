//! The scheduler's arithmetic: fixed-rate deadlines on a grid anchored at
//! the first tick, with missed ticks coalesced rather than queued.

use vstd::prelude::*;
use vstd::arithmetic::div_mod::{lemma_fundamental_div_mod, lemma_fundamental_div_mod_converse,
    lemma_mod_division_less_than_divisor, lemma_mod_multiples_basic};

verus! {

/// The first grid point strictly after `now` on the grid anchored at `start`
/// with spacing `period`. However late `now` runs, this is one deadline, not
/// a backlog of missed ones.
pub open spec fn grid_next(start: int, period: int, now: int) -> int {
    start + ((now - start) / period + 1) * period
}

/// The next deadline to sleep until once a cycle has finished at `now`.
pub fn next_deadline(start: u64, period: u64, now: u64) -> (d: u64)
    requires
        period >= 1,
        start <= now,
        grid_next(start as int, period as int, now as int) <= u64::MAX,
    ensures
        d == grid_next(start as int, period as int, now as int),
        now < d <= now + period,
        (d - start) % (period as int) == 0,
{
    let q = (now - start) / period;
    proof {
        lemma_fundamental_div_mod((now - start) as int, period as int);
        lemma_mod_division_less_than_divisor((now - start) as int, period as int);
        assert((q as int + 1) * (period as int) == q as int * (period as int) + period as int)
            by (nonlinear_arith);
        assert((q as int + 1) * (period as int) <= 0x1_0000_0000_0000_0000 * 0xffff_ffff_ffff_ffff)
            by (nonlinear_arith)
            requires
                0 <= q as int <= 0xffff_ffff_ffff_ffff,
                1 <= period as int <= 0xffff_ffff_ffff_ffff,
        ;
        lemma_mod_multiples_basic(q as int + 1, period as int);
    }
    let qq: u128 = q as u128 + 1;
    let dd: u128 = start as u128 + qq * (period as u128);
    proof {
        let pp = period as int;
        let qi = q as int;
        let rr = (now as int - start as int) % pp;
        assert(now as int == start as int + pp * qi + rr);
        assert(dd as int == start as int + qi * pp + pp);
        assert(qi * pp == pp * qi) by (nonlinear_arith);
        assert(dd <= u64::MAX as u128);
    }
    dd as u64
}

/// Fixed-rate ticking without overlap: a cycle that ran at deadline `d` and
/// finished at `fin` within one period has its next deadline exactly one
/// period later — the schedule stays on the grid.
pub proof fn lemma_no_overrun_next_tick(start: int, period: int, d: int, fin: int)
    requires
        period >= 1,
        start <= d,
        (d - start) % period == 0,
        d <= fin < d + period,
    ensures
        grid_next(start, period, fin) == d + period,
{
    let k = (d - start) / period;
    lemma_fundamental_div_mod(d - start, period);
    let e = fin - d;
    lemma_fundamental_div_mod_converse(fin - start, period, k, e);
    assert((k + 1) * period == k * period + period) by (nonlinear_arith);
}

/// Scheduling over a whole run: when every cycle finishes within one period
/// of its tick (duration < period, no overrun), the tick after the j-th
/// cycle falls exactly j+1 periods after the anchor — after K such cycles
/// the scheduler has fired K times, K periods apart, and never two at once.
pub proof fn lemma_schedule_k_ticks(start: int, period: int, fins: Seq<int>)
    requires
        period >= 1,
        forall|j: int| #![trigger fins[j]]
            0 <= j < fins.len() ==> start + j * period <= fins[j] < start + j * period + period,
    ensures
        forall|j: int|
            0 <= j < fins.len() ==> grid_next(start, period, fins[j]) == start + (j + 1) * period,
{
    assert forall|j: int| 0 <= j < fins.len() implies grid_next(start, period, fins[j]) == start
        + (j + 1) * period by {
        let d = start + j * period;
        assert(j * period >= 0) by (nonlinear_arith)
            requires
                j >= 0,
                period >= 1,
        ;
        lemma_mod_multiples_basic(j, period);
        lemma_no_overrun_next_tick(start, period, d, fins[j]);
        assert((j + 1) * period == j * period + period) by (nonlinear_arith);
    }
}

} // verus!
