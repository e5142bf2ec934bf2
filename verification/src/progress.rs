//! Progress in percent, reported in steps.

use vstd::prelude::*;

verus! {

/// By how much the percentage has to grow before it is reported again.
pub const REPORT_STEP: u64 = 25;

/// How much of a transfer is done, in percent. An empty one is done at once.
pub open spec fn percent(done: nat, total: nat) -> nat {
    if total == 0 {
        100
    } else {
        done * 100 / total
    }
}

/// What is reported of `done` bytes out of `total` after `last` percent were: the
/// end always, and everything else in steps.
pub open spec fn reported(last: nat, done: nat, total: nat) -> Option<nat> {
    let now = percent(done, total);
    if now == 100 || now >= last + REPORT_STEP {
        Some(now)
    } else {
        None
    }
}

/// As long as no more is done than there is to do, the percentage stays within
/// the hundred.
pub proof fn percent_is_bounded(done: nat, total: nat)
    requires
        done <= total,
    ensures
        percent(done, total) <= 100,
{
    if total > 0 {
        assert(done * 100 / total <= 100) by (nonlinear_arith)
            requires
                done <= total,
                total > 0,
        ;
    }
}

/// The end of a transfer is always reported, as a hundred percent.
pub proof fn end_is_reported(last: nat, total: nat)
    ensures
        reported(last, total, total) == Some(100nat),
{
    if total > 0 {
        assert(total * 100 / total == 100) by (nonlinear_arith)
            requires
                total > 0,
        ;
    }
}

/// The percentage is rounded down: it is the largest number of hundredths that are
/// done. An empty transfer is done at once.
pub proof fn percent_is_rounded_down(done: nat, total: nat)
    ensures
        total == 0 ==> percent(done, total) == 100,
        total > 0 ==> percent(done, total) * total <= done * 100 < (percent(done, total) + 1)
            * total,
{
    if total > 0 {
        let all = (done * 100) as int;
        assert((all / total as int) * total <= all < (all / total as int + 1) * total)
            by (nonlinear_arith)
            requires
                total > 0,
                all >= 0,
        ;
    }
}

/// What is reported is the percentage, and it is either the end or a quarter ahead of
/// the last report. Where nothing is reported, less than that was reached, and it is
/// not the end.
pub proof fn reports_come_in_quarters(last: nat, done: nat, total: nat)
    ensures
        match reported(last, done, total) {
            Some(now) => {
                &&& now == 100 || now >= last + 25
                &&& total == 0 ==> now == 100
                &&& total > 0 ==> now * total <= done * 100 < (now + 1) * total
            },
            None => {
                &&& total > 0
                &&& done * 100 < (last + 25) * total
                &&& !(100 * total <= done * 100 < 101 * total)
            },
        },
{
    percent_is_rounded_down(done, total);
    let now = percent(done, total);
    if total > 0 && reported(last, done, total) is None {
        assert((now + 1) * total <= (last + 25) * total) by (nonlinear_arith)
            requires
                now + 1 <= last + 25,
        ;
        if now < 100 {
            assert((now + 1) * total <= 100 * total) by (nonlinear_arith)
                requires
                    now < 100,
            ;
        } else {
            assert(101 * total <= now * total) by (nonlinear_arith)
                requires
                    now > 100,
            ;
        }
    }
}

/// Reports the progress of one transfer.
#[derive(Debug)]
pub struct ProgressMeter {
    last: u64,
}

impl View for ProgressMeter {
    type V = nat;

    closed spec fn view(&self) -> nat {
        self.last as nat
    }
}

impl ProgressMeter {
    /// A meter for a transfer that has not begun.
    pub fn new() -> (meter: ProgressMeter)
        ensures
            meter@ == 0,
    {
        ProgressMeter { last: 0 }
    }

    /// The percentage that was reported last, or zero.
    pub fn last(&self) -> (pct: u64)
        ensures
            pct == self@,
    {
        self.last
    }

    /// The percentage to be reported now that `done` bytes out of `total` are
    /// done, if any is.
    pub fn on_progress(&mut self, done: u64, total: u64) -> (pct: Option<u64>)
        requires
            total > 0 ==> done * 100 <= u64::MAX,
            percent(done as nat, total as nat) != 100 ==> old(self)@ + REPORT_STEP <= u64::MAX,
        ensures
            match reported(old(self)@, done as nat, total as nat) {
                Some(now) => pct == Some(now as u64) && final(self)@ == now && now <= u64::MAX,
                None => pct is None && final(self)@ == old(self)@,
            },
    {
        let now: u64 = if total == 0 {
            100
        } else {
            proof {
                assert(done * 100 / total as int <= done * 100) by (nonlinear_arith)
                    requires
                        total > 0,
                        done >= 0,
                ;
            }
            done * 100 / total
        };
        if now == 100 || now >= self.last + REPORT_STEP {
            self.last = now;
            Some(now)
        } else {
            None
        }
    }
}

} // verus!
