//! A timer that takes a reading of the clock at each mark and reports the time
//! between consecutive marks.

use vstd::prelude::*;
use crate::clock::{_time, elapsed, elapsed_between};
use crate::line::{timer_line, timer_text};

verus! {

/// Times consecutive sections of a program. The first reading is taken when
/// the timer is made, one more at every mark; each mark's line reports the
/// time since the reading before it.
pub struct Timer {
    times: Vec<u64>,
    strs: Vec<&'static str>,
}

impl Timer {
    /// The readings taken so far, oldest first.
    pub closed spec fn times(&self) -> Seq<u64> {
        self.times@
    }

    /// The labels of the marks made so far, oldest first.
    pub closed spec fn labels(&self) -> Seq<Seq<char>> {
        Seq::new(self.strs@.len(), |i: int| self.strs@[i]@)
    }

    /// There is one reading more than there are labels: the first reading
    /// belongs to no mark.
    pub closed spec fn wf(&self) -> bool {
        self.times@.len() == self.strs@.len() + 1
    }

    /// The lines that a timer with these readings and labels reports: one per
    /// mark, in the order of the marks.
    pub open spec fn report(times: Seq<u64>, labels: Seq<Seq<char>>) -> Seq<Seq<char>>
        recommends
            times.len() == labels.len() + 1,
    {
        Seq::new(labels.len(), |i: int| timer_text(labels[i], elapsed(times[i], times[i + 1])))
    }

    /// A timer holds one reading more than it holds labels.
    pub proof fn one_reading_more(&self)
        requires
            self.wf(),
        ensures
            self.times().len() == self.labels().len() + 1,
    {
    }

    /// There is one line per mark: a timer without marks reports nothing.
    pub proof fn report_has_line_per_mark(times: Seq<u64>, labels: Seq<Seq<char>>)
        ensures
            Timer::report(times, labels).len() == labels.len(),
            labels.len() == 0 ==> Timer::report(times, labels) == Seq::<Seq<char>>::empty(),
    {
        assert(labels.len() == 0 ==> Timer::report(times, labels) =~= Seq::<Seq<char>>::empty());
    }

    /// A mark adds one line at the end, for the time since the reading before
    /// it, and leaves the earlier lines as they were and where they were.
    pub proof fn report_after_mark(
        times: Seq<u64>,
        labels: Seq<Seq<char>>,
        now: u64,
        label: Seq<char>,
    )
        requires
            times.len() == labels.len() + 1,
        ensures
            Timer::report(times.push(now), labels.push(label)) == Timer::report(
                times,
                labels,
            ).push(timer_text(label, elapsed(times.last(), now))),
    {
        assert(Timer::report(times.push(now), labels.push(label)) =~= Timer::report(
            times,
            labels,
        ).push(timer_text(label, elapsed(times.last(), now))));
    }

    /// A timer whose first reading is `start`.
    pub fn starting_at(start: u64) -> (timer: Timer)
        ensures
            timer.wf(),
            timer.times() == seq![start],
            timer.labels() == Seq::<Seq<char>>::empty(),
    {
        let mut times: Vec<u64> = Vec::with_capacity(100);
        let strs: Vec<&'static str> = Vec::with_capacity(100);
        times.push(start);
        let timer = Timer { times, strs };
        proof {
            assert(timer.times() =~= seq![start]);
            assert(timer.labels() =~= Seq::<Seq<char>>::empty());
        }
        timer
    }

    /// A timer whose first reading is taken now.
    pub fn new() -> (timer: Timer)
        ensures
            timer.wf(),
            timer.times().len() == 1,
            timer.labels() == Seq::<Seq<char>>::empty(),
    {
        Timer::starting_at(_time())
    }

    /// Marks off a section that ended at the reading `now`.
    pub fn mark_at(&mut self, now: u64, label: &'static str)
        requires
            old(self).wf(),
        ensures
            final(self).wf(),
            final(self).times() == old(self).times().push(now),
            final(self).labels() == old(self).labels().push(label@),
    {
        self.times.push(now);
        self.strs.push(label);
        proof {
            assert(final(self).labels() =~= old(self).labels().push(label@));
        }
    }

    /// Marks off a section that ends now.
    pub fn mark(&mut self, label: &'static str)
        requires
            old(self).wf(),
        ensures
            final(self).wf(),
            exists|now: u64| final(self).times() == old(self).times().push(now),
            final(self).labels() == old(self).labels().push(label@),
    {
        let now: u64 = _time();
        self.mark_at(now, label);
    }

    /// Ends the timer and hands back its lines, one per mark in the order of
    /// the marks, none with a line break.
    pub fn present(self) -> (lines: Vec<String>)
        requires
            self.wf(),
        ensures
            lines@.len() == self.labels().len(),
            forall|i: int|
                0 <= i < lines@.len() ==> (#[trigger] lines@[i])@ == Timer::report(
                    self.times(),
                    self.labels(),
                )[i],
    {
        let mut lines: Vec<String> = Vec::new();
        let n: usize = self.strs.len();
        let mut i: usize = 0;
        while i < n
            invariant
                self.wf(),
                n == self.strs@.len(),
                i <= n,
                lines@.len() == i,
                forall|k: int|
                    0 <= k < i ==> (#[trigger] lines@[k])@ == Timer::report(
                        self.times(),
                        self.labels(),
                    )[k],
            decreases n - i,
        {
            let ns: u64 = elapsed_between(self.times[i], self.times[i + 1]);
            let line = timer_line(self.strs[i], ns);
            lines.push(line);
            i = i + 1;
        }
        lines
    }
}

} // verus!
