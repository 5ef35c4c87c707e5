//! How far a task has come.
use vstd::prelude::*;

verus! {

/// A share of a task, in percent.
#[derive(Clone, Copy, PartialEq, Eq, Structural, Debug)]
pub enum Progress {
    /// So many percent.
    At { percent: u32 },
    /// Between `start` and `end` percent: `done` of `total` of the way, at most all of it.
    Between { start: u32, end: u32, done: u64, total: u64 },
}

impl Progress {
    /// The share lies within the task, and the parts of it are told apart.
    pub open spec fn well_formed(self) -> bool {
        match self {
            Progress::At { percent } => percent <= 100,
            Progress::Between { start, end, done, total } => start <= end <= 100 && total > 0,
        }
    }

    /// The share in percent, times `self.scale()`.
    pub open spec fn scaled(self) -> int {
        match self {
            Progress::At { percent } => percent as int,
            Progress::Between { start, end, done, total } => start * total + (end - start) * (if done
                <= total {
                done
            } else {
                total
            }),
        }
    }

    /// The number of parts into which `scaled` divides one percent.
    pub open spec fn scale(self) -> int {
        match self {
            Progress::At { .. } => 1,
            Progress::Between { total, .. } => total as int,
        }
    }

    /// Whether this share is at most the other one.
    pub open spec fn at_most(self, other: Progress) -> bool {
        self.scaled() * other.scale() <= other.scaled() * self.scale()
    }
}

/// So many percent.
pub open spec fn at_percent(percent: u32) -> Progress {
    Progress::At { percent }
}

/// The share that lies `done` of `total` of the way from `start` to `end` percent.
pub open spec fn portion(start: u32, end: u32, done: u64, total: u64) -> Progress {
    Progress::Between { start, end, done, total }
}

/// A share between two others is at most the second and at least the first.
pub proof fn law_between_its_ends(start: u32, end: u32, done: u64, total: u64)
    requires
        start <= end,
    ensures
        portion(start, end, done, total).at_most(at_percent(end)),
        at_percent(start).at_most(portion(start, end, done, total)),
{
    let m: int = if done <= total {
        done as int
    } else {
        total as int
    };
    assert(start * total + (end - start) * m <= end * total) by (nonlinear_arith)
        requires
            start <= end,
            0 <= m <= total,
    ;
    assert(start * total <= start * total + (end - start) * m) by (nonlinear_arith)
        requires
            start <= end,
            0 <= m <= total,
    ;
}

/// The more is done of the same task, the greater the share.
pub proof fn law_share_grows(start: u32, end: u32, done: u64, more: u64, total: u64)
    requires
        start <= end,
        done <= more,
    ensures
        portion(start, end, done, total).at_most(portion(start, end, more, total)),
{
    let m: int = if done <= total {
        done as int
    } else {
        total as int
    };
    let n: int = if more <= total {
        more as int
    } else {
        total as int
    };
    assert((start * total + (end - start) * m) * total <= (start * total + (end - start) * n)
        * total) by (nonlinear_arith)
        requires
            start <= end,
            m <= n,
            0 <= total,
    ;
}

} // verus!
