//! Progress of a rewrite: the share of the payload that has been processed,
//! as a whole percentage, reported each time it changes, and the sink that
//! the reports go to.

use vstd::prelude::*;
use vstd::arithmetic::div_mod::lemma_div_is_ordered;

verus! {

/// The share of `total` that `done` is, as a whole percentage: rounded down,
/// and 100 at most. Of an empty payload every amount is all of it.
pub open spec fn percent_of(done: nat, total: nat) -> nat {
    if total == 0 || done >= total {
        100
    } else {
        done * 100 / total
    }
}

/// `total` and `amount` together, up to the largest size that is counted.
pub open spec fn counted(total: nat, amount: nat) -> nat {
    if total + amount > u64::MAX {
        u64::MAX as nat
    } else {
        total + amount
    }
}

/// Every report lies between 1 and 100, and each is larger than the one
/// before it.
pub open spec fn is_rising(reports: Seq<u8>) -> bool {
    &&& forall|i: int| 0 <= i < reports.len() ==> 1 <= #[trigger] reports[i] <= 100
    &&& forall|i: int, j: int| 0 <= i < j < reports.len() ==> reports[i] < reports[j]
}

/// The reports that came after `before` in `after`.
pub open spec fn added(before: Seq<u8>, after: Seq<u8>) -> Seq<u8> {
    after.skip(before.len() as int)
}

/// The report made last, or 0 where none was made.
pub open spec fn last_of(reports: Seq<u8>) -> nat {
    if reports.len() == 0 {
        0
    } else {
        reports.last() as nat
    }
}

/// The reports once `done` of `total` bytes are processed: where the
/// percentage is no longer the one reported last, it is reported.
pub open spec fn with_report(reports: Seq<u8>, done: nat, total: nat) -> Seq<u8> {
    if percent_of(done, total) == last_of(reports) {
        reports
    } else {
        reports.push(percent_of(done, total) as u8)
    }
}

/// What is done and what is reported once `left` more bytes are processed in
/// chunks of `chunk` bytes, the last one shorter where the bytes run out.
pub open spec fn after_chunks(
    state: (nat, Seq<u8>),
    total: nat,
    left: nat,
    chunk: nat,
) -> (nat, Seq<u8>)
    decreases left,
{
    if left == 0 || chunk == 0 {
        state
    } else {
        let amount = if left < chunk {
            left
        } else {
            chunk
        };
        let done = counted(state.0, amount);
        after_chunks(
            (done, with_report(state.1, done, total)),
            total,
            (left - amount) as nat,
            chunk,
        )
    }
}

/// The percentage is at most 100 and does not fall as more is done.
pub proof fn lemma_percent_monotonic(done: nat, more: nat, total: nat)
    requires
        done <= more,
    ensures
        percent_of(done, total) <= percent_of(more, total) <= 100,
{
    if total > 0 && done < total {
        assert(done * 100 / total < 100) by (nonlinear_arith)
            requires
                done < total,
        ;
    }
    if total > 0 && more < total {
        lemma_div_is_ordered((done * 100) as int, (more * 100) as int, total as int);
        assert(more * 100 / total < 100) by (nonlinear_arith)
            requires
                more < total,
        ;
    }
}

/// A prefix of a prefix is a prefix.
pub proof fn lemma_prefix_chain(first: Seq<u8>, second: Seq<u8>, third: Seq<u8>)
    requires
        first.is_prefix_of(second),
        second.is_prefix_of(third),
    ensures
        first.is_prefix_of(third),
{
}

/// Processing more bytes takes no report back: what was reported before is
/// the start of what is reported after.
pub proof fn lemma_chunks_extend(state: (nat, Seq<u8>), total: nat, left: nat, chunk: nat)
    ensures
        state.1.is_prefix_of(after_chunks(state, total, left, chunk).1),
    decreases left,
{
    if left == 0 || chunk == 0 {
    } else {
        let amount = if left < chunk {
            left
        } else {
            chunk
        };
        let done = counted(state.0, amount);
        let next = (done, with_report(state.1, done, total));
        lemma_chunks_extend(next, total, (left - amount) as nat, chunk);
        lemma_prefix_chain(
            state.1,
            next.1,
            after_chunks(next, total, (left - amount) as nat, chunk).1,
        );
    }
}

/// How far a rewrite has come, and the percentages reported on the way.
#[derive(Debug)]
pub struct Progress {
    total: u64,
    done: u64,
    reports: Vec<u8>,
}

impl Progress {
    /// The reports rise, and the last of them is no more than the percentage
    /// that is reached.
    #[verifier::type_invariant]
    pub closed spec fn consistent(&self) -> bool {
        &&& is_rising(self.reports@)
        &&& last_of(self.reports@) <= percent_of(self.done as nat, self.total as nat)
    }

    /// The reports of a consistent progress rise.
    pub proof fn lemma_reports_rise(&self)
        requires
            self.consistent(),
        ensures
            is_rising(self.reports()),
            last_of(self.reports()) <= percent_of(self.done(), self.total()),
    {
    }

    /// The size of the whole payload.
    pub closed spec fn total(&self) -> nat {
        self.total as nat
    }

    /// The size of what has been processed.
    pub closed spec fn done(&self) -> nat {
        self.done as nat
    }

    /// The percentages reported so far.
    pub closed spec fn reports(&self) -> Seq<u8> {
        self.reports@
    }

    /// What is done, and what is reported so far.
    pub open spec fn state(&self) -> (nat, Seq<u8>) {
        (self.done(), self.reports())
    }

    /// The progress of a rewrite of `total` bytes of which nothing is done.
    pub fn new(total: u64) -> (r: Progress)
        ensures
            r.total() == total,
            r.done() == 0,
            r.reports() == Seq::<u8>::empty(),
    {
        Progress { total, done: 0, reports: Vec::new() }
    }

    /// Counts `amount` bytes as processed, without a report.
    pub fn skip(&mut self, amount: u64)
        ensures
            final(self).total() == old(self).total(),
            final(self).done() == counted(old(self).done(), amount as nat),
            final(self).reports() == old(self).reports(),
    {
        proof {
            use_type_invariant(&*self);
            lemma_percent_monotonic(
                self.done as nat,
                counted(self.done as nat, amount as nat),
                self.total as nat,
            );
        }
        let done = self.done.saturating_add(amount);
        self.done = done;
    }

    /// Counts `amount` bytes as processed. Where the percentage is no longer
    /// the one reported last, it is reported, and returned.
    pub fn advance(&mut self, amount: u64) -> (report: Option<u8>)
        ensures
            final(self).total() == old(self).total(),
            final(self).done() == counted(old(self).done(), amount as nat),
            final(self).reports() == with_report(
                old(self).reports(),
                final(self).done(),
                final(self).total(),
            ),
            final(self).reports() == match report {
                Some(percent) => old(self).reports().push(percent),
                None => old(self).reports(),
            },
            report matches Some(percent) ==> 1 <= percent <= 100,
    {
        proof {
            use_type_invariant(&*self);
            lemma_percent_monotonic(
                self.done as nat,
                counted(self.done as nat, amount as nat),
                self.total as nat,
            );
        }
        let done = self.done.saturating_add(amount);
        let share = percent(done, self.total);
        let mut reports: Vec<u8> = Vec::new();
        core::mem::swap(&mut self.reports, &mut reports);
        let last = if reports.len() == 0 {
            0
        } else {
            reports[reports.len() - 1]
        };
        let report = if share != last {
            reports.push(share);
            Some(share)
        } else {
            None
        };
        *self = Progress { total: self.total, done, reports };
        report
    }

    /// The percentages reported so far: each between 1 and 100, each larger
    /// than the one before it.
    pub fn reported(&self) -> (r: &Vec<u8>)
        ensures
            r@ == self.reports(),
            is_rising(r@),
    {
        proof {
            use_type_invariant(self);
        }
        &self.reports
    }
}

/// The callback, where there is one, may be called with every percentage
/// that is reported: with each from 1 to 100.
pub open spec fn accepts<F: Fn(u8)>(callback: Option<F>) -> bool {
    callback matches Some(f) ==> forall|percent: u8|
        1 <= percent <= 100 ==> call_requires(f, (percent,))
}

/// The callback, where there is one, was called with each of `reports`, and
/// returned.
pub open spec fn received<F: Fn(u8)>(callback: Option<F>, reports: Seq<u8>) -> bool {
    callback matches Some(f) ==> forall|i: int|
        0 <= i < reports.len() ==> call_ensures(f, (#[trigger] reports[i],), ())
}

/// Where the reports of a rewrite go: each is handed to the callback at
/// once, where there is one, and recorded.
pub struct ProgressSink<F: Fn(u8)> {
    callback: Option<F>,
    reports: Vec<u8>,
}

impl<F: Fn(u8)> ProgressSink<F> {
    /// The callback accepts every percentage that is reported, and it was
    /// called with each one that is recorded.
    #[verifier::type_invariant]
    pub closed spec fn callable(&self) -> bool {
        &&& accepts(self.callback)
        &&& received(self.callback, self.reports@)
    }

    /// The percentages that the sink was handed so far.
    pub closed spec fn reports(&self) -> Seq<u8> {
        self.reports@
    }

    /// The callback that the sink hands each percentage to.
    pub closed spec fn callback(&self) -> Option<F> {
        self.callback
    }

    /// The callback of a sink was called with each percentage that the sink
    /// has recorded.
    pub proof fn lemma_callback_received(&self)
        requires
            self.callable(),
        ensures
            accepts(self.callback()),
            received(self.callback(), self.reports()),
    {
    }

    /// A sink with this callback that was handed nothing yet. The callback,
    /// where there is one, has to accept every percentage from 1 to 100.
    pub fn new(callback: Option<F>) -> (sink: Self)
        requires
            accepts(callback),
        ensures
            sink.reports() == Seq::<u8>::empty(),
            sink.callback() == callback,
    {
        ProgressSink { callback, reports: Vec::new() }
    }

    /// Hands a percentage to the sink: the callback is called with it,
    /// where there is one, and it is recorded.
    pub fn report(&mut self, percent: u8)
        requires
            1 <= percent <= 100,
        ensures
            final(self).reports() == old(self).reports().push(percent),
            final(self).callback() == old(self).callback(),
            old(self).callback() matches Some(f) ==> call_ensures(f, (percent,), ()),
    {
        proof {
            use_type_invariant(&*self);
        }
        match &self.callback {
            Some(callback) => {
                callback(percent);
            },
            None => {},
        }
        let mut reports: Vec<u8> = Vec::new();
        core::mem::swap(&mut self.reports, &mut reports);
        reports.push(percent);
        self.reports = reports;
    }

    /// The percentages that the sink was handed so far. The callback, where
    /// there is one, was called with each of them.
    pub fn reported(&self) -> (r: &Vec<u8>)
        ensures
            r@ == self.reports(),
            received(self.callback(), r@),
    {
        proof {
            use_type_invariant(self);
        }
        &self.reports
    }
}

/// The share of `total` that `done` is, as a whole percentage.
pub fn percent(done: u64, total: u64) -> (r: u8)
    ensures
        r == percent_of(done as nat, total as nat),
        r <= 100,
{
    if total == 0 || done >= total {
        100
    } else {
        let scaled: u128 = (done as u128) * 100;
        let share: u128 = scaled / (total as u128);
        assert(share < 100) by (nonlinear_arith)
            requires
                share == (done as int) * 100 / (total as int),
                0 <= done < total,
        ;
        share as u8
    }
}

} // verus!
