//! The digest collector: follows the live log, gathers the lines the
//! allow-list does not recognize, and asks for them to be mailed once a
//! flush interval has passed. It decides; the caller reads and sends.
use vstd::prelude::*;

use crate::patterns::{any_matches, PatternSet};
use crate::text::{join, join_with, texts};

verus! {

/// The time between two digests in normal operation, in milliseconds.
pub const FLUSH_INTERVAL_MS: u64 = 15 * 60 * 1000;

/// The subject line of every digest mail.
pub const MAIL_SUBJECT: &'static str = "Unexpected log messages";

/// What the followed log source produced next.
pub enum SourceEvent {
    /// One more log line.
    Line(String),
    /// The source ended, with the reader's exit code if it had one.
    Ended(Option<i32>),
    /// Reading the source failed.
    ReadFailed(String),
}

/// What the caller is to do after an event.
pub enum CollectorAction {
    /// Keep reading.
    Continue,
    /// Mail this digest body, then report the outcome.
    Send(String),
}

/// A failure that ends the collector, and with it the process.
pub enum CollectorError {
    /// The followed log source ended; it is meant to run forever.
    SourceEnded(Option<i32>),
    /// Reading the followed log source failed.
    ReadFailed(String),
    /// A digest could not be delivered.
    MailFailed(String),
}

/// The text lines of a digest mail are separated by.
pub open spec fn mail_separator() -> Seq<char> {
    seq!['\r', '\n']
}

/// The time from `since` to `now`, zero if the clock went backwards.
pub open spec fn elapsed(since: u64, now: u64) -> int {
    if now >= since {
        now - since
    } else {
        0
    }
}

/// The batch after one line arrives: unexpected lines are added.
pub open spec fn batch_after(patterns: Seq<Seq<char>>, batch: Seq<Seq<char>>, line: Seq<char>) -> Seq<
    Seq<char>,
> {
    if any_matches(patterns, line) {
        batch
    } else {
        batch.push(line)
    }
}

/// The collector's state: the unexpected lines since the last digest, when
/// that digest went out, and the interval between digests.
pub struct Collector {
    batch: Vec<String>,
    last_flush: u64,
    interval: u64,
}

impl Collector {
    /// The unexpected lines gathered since the last digest, in arrival order.
    pub closed spec fn batch_view(&self) -> Seq<Seq<char>> {
        texts(self.batch@)
    }

    /// The time of the last digest (or of the start).
    pub closed spec fn last_flush_spec(&self) -> u64 {
        self.last_flush
    }

    /// The least time between two digests.
    pub closed spec fn interval_spec(&self) -> u64 {
        self.interval
    }

    /// A collector started at `now` with an empty batch.
    pub fn new(interval: u64, now: u64) -> (r: Collector)
        ensures
            r.batch_view() == Seq::<Seq<char>>::empty(),
            r.last_flush_spec() == now,
            r.interval_spec() == interval,
    {
        let c = Collector { batch: Vec::new(), last_flush: now, interval };
        assert(c.batch_view() =~= Seq::<Seq<char>>::empty());
        c
    }

    /// The unexpected lines gathered since the last digest.
    pub fn batch(&self) -> (r: &Vec<String>)
        ensures
            texts(r@) == self.batch_view(),
    {
        &self.batch
    }

    /// Takes one line that arrived at `now`: keeps it if the allow-list does
    /// not recognize it, then asks for a digest when the batch is not empty
    /// and at least the interval has passed since the last one. The batch is
    /// kept until the delivery is reported.
    pub fn on_line(&mut self, patterns: &PatternSet, line: String, now: u64) -> (r:
        CollectorAction)
        ensures
            final(self).batch_view() == batch_after(patterns@, old(self).batch_view(), line@),
            final(self).last_flush_spec() == old(self).last_flush_spec(),
            final(self).interval_spec() == old(self).interval_spec(),
            r is Send <==> (final(self).batch_view().len() > 0 && elapsed(
                old(self).last_flush_spec(),
                now,
            ) >= old(self).interval_spec()),
            r is Send ==> r->Send_0@ == join_with(final(self).batch_view(), mail_separator()),
    {
        let expected = patterns.matches(line.as_str());
        if !expected {
            let ghost before = texts(self.batch@);
            self.batch.push(line);
            assert(texts(self.batch@) =~= before.push(line@));
        }
        let waited = if now >= self.last_flush {
            now - self.last_flush
        } else {
            0
        };
        if self.batch.len() > 0 && waited >= self.interval {
            let body = join(&self.batch, "\r\n");
            proof {
                reveal_strlit("\r\n");
                assert("\r\n"@ =~= mail_separator());
            }
            CollectorAction::Send(body)
        } else {
            CollectorAction::Continue
        }
    }

    /// Takes the next event of the followed source at `now`. A line goes
    /// through `on_line`; the end of the source, or a read failure, is fatal
    /// and leaves the state as it was.
    pub fn on_event(&mut self, patterns: &PatternSet, event: SourceEvent, now: u64) -> (r: Result<
        CollectorAction,
        CollectorError,
    >)
        ensures
            match event {
                SourceEvent::Line(line) => {
                    &&& r is Ok
                    &&& final(self).batch_view() == batch_after(
                        patterns@,
                        old(self).batch_view(),
                        line@,
                    )
                    &&& final(self).last_flush_spec() == old(self).last_flush_spec()
                    &&& final(self).interval_spec() == old(self).interval_spec()
                    &&& (r->Ok_0 is Send <==> (final(self).batch_view().len() > 0 && elapsed(
                        old(self).last_flush_spec(),
                        now,
                    ) >= old(self).interval_spec()))
                    &&& (r->Ok_0 is Send ==> r->Ok_0->Send_0@ == join_with(
                        final(self).batch_view(),
                        mail_separator(),
                    ))
                },
                SourceEvent::Ended(code) => {
                    &&& r matches Err(CollectorError::SourceEnded(c)) && c == code
                    &&& *final(self) == *old(self)
                },
                SourceEvent::ReadFailed(msg) => {
                    &&& r matches Err(CollectorError::ReadFailed(m)) && m == msg
                    &&& *final(self) == *old(self)
                },
            },
    {
        match event {
            SourceEvent::Line(line) => Ok(self.on_line(patterns, line, now)),
            SourceEvent::Ended(code) => Err(CollectorError::SourceEnded(code)),
            SourceEvent::ReadFailed(msg) => Err(CollectorError::ReadFailed(msg)),
        }
    }

    /// Takes the outcome of mailing a digest at `now`. On delivery the batch
    /// is cleared and the interval starts again; a failed delivery is fatal
    /// and leaves the batch as it was.
    pub fn on_delivery(&mut self, outcome: Result<(), String>, now: u64) -> (r: Result<
        (),
        CollectorError,
    >)
        ensures
            outcome is Ok ==> {
                &&& r is Ok
                &&& final(self).batch_view() == Seq::<Seq<char>>::empty()
                &&& final(self).last_flush_spec() == now
                &&& final(self).interval_spec() == old(self).interval_spec()
            },
            outcome is Err ==> {
                &&& r matches Err(CollectorError::MailFailed(m)) && m == outcome->Err_0
                &&& *final(self) == *old(self)
            },
    {
        match outcome {
            Ok(()) => {
                self.batch.clear();
                self.last_flush = now;
                assert(self.batch_view() =~= Seq::<Seq<char>>::empty());
                Ok(())
            },
            Err(msg) => Err(CollectorError::MailFailed(msg)),
        }
    }
}

} // verus!
