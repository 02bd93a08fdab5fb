//! Per-vessel rate limiting of forwarded reports.
//!
//! For every vessel identity the limiter remembers when a dynamic report and
//! when a static report was last forwarded. A report is forwarded when at
//! least the configured number of whole seconds has passed since the last
//! forward of its category. The two categories do not touch each other.

use vstd::prelude::*;
use vstd::arithmetic::div_mod::lemma_div_is_ordered;
use vstd::arithmetic::div_mod::lemma_div_multiples_vanish;
use std::collections::HashMap;
use crate::clock::elapsed_nanos;
use crate::clock::whole_seconds;
use crate::clock::NANOS_PER_SEC;
use crate::message::DecodedMessage;

verus! {

broadcast use vstd::std_specs::hash::group_hash_axioms;

/// When reports of one vessel were last forwarded, per category, in
/// nanoseconds of the monotonic clock. A time before the clock's origin is
/// negative.
#[derive(Clone, Copy, Debug, PartialEq, Eq)]
pub struct LastSent {
    pub vessel_dynamic_data: i128,
    pub vessel_static_data: i128,
}

/// The category of a report that is subject to rate limiting.
#[derive(Clone, Copy, Debug, PartialEq, Eq)]
pub enum Category {
    Dynamic,
    Static,
}

impl LastSent {
    /// The record of a vessel that is seen for the first time at `now`: both
    /// times lie exactly one interval in the past.
    pub open spec fn backdated(now: u64, interval: u64) -> LastSent {
        LastSent {
            vessel_dynamic_data: (now - interval * NANOS_PER_SEC) as i128,
            vessel_static_data: (now - interval * NANOS_PER_SEC) as i128,
        }
    }

    /// The time of the last forward in `category`.
    pub open spec fn of(self, category: Category) -> i128 {
        match category {
            Category::Dynamic => self.vessel_dynamic_data,
            Category::Static => self.vessel_static_data,
        }
    }

    /// The record after a forward in `category` at `now`.
    pub open spec fn forwarded(self, category: Category, now: u64) -> LastSent {
        match category {
            Category::Dynamic => LastSent { vessel_dynamic_data: now as i128, ..self },
            Category::Static => LastSent { vessel_static_data: now as i128, ..self },
        }
    }

    /// Whether a report in `category` may be forwarded at `now`: the whole
    /// seconds since the last forward are at least `interval`.
    pub open spec fn eligible(self, category: Category, now: u64, interval: u64) -> bool {
        whole_seconds(elapsed_nanos(now as int, self.of(category) as int)) >= interval
    }

}

/// The category under which `message` is rate limited and the vessel it is
/// about; `None` for a message that is not subject to rate limiting.
pub open spec fn limited(message: DecodedMessage) -> Option<(Category, u32)> {
    match message {
        DecodedMessage::VesselDynamicData { mmsi, .. } => Some((Category::Dynamic, mmsi)),
        DecodedMessage::VesselStaticData { mmsi } => Some((Category::Static, mmsi)),
        _ => None,
    }
}

/// What the limiter knows: the interval in seconds and the record of every
/// vessel seen so far.
pub struct RateTable {
    pub interval: u64,
    pub last_sent: Map<u32, LastSent>,
}

impl RateTable {
    /// The record that decides about a report of `mmsi` at `now`: the one
    /// held, or a backdated one for a vessel that was never seen.
    pub open spec fn record(self, mmsi: u32, now: u64) -> LastSent {
        if self.last_sent.contains_key(mmsi) {
            self.last_sent[mmsi]
        } else {
            LastSent::backdated(now, self.interval)
        }
    }

    /// Whether `message`, arriving at `now`, is forwarded.
    pub open spec fn should_forward(self, message: DecodedMessage, now: u64) -> bool {
        match limited(message) {
            Some((category, mmsi)) => self.record(mmsi, now).eligible(category, now, self.interval),
            None => false,
        }
    }

    /// The table after `message` arrived at `now`: a forward stores its time
    /// under the message's category, anything else changes nothing.
    pub open spec fn checked(self, message: DecodedMessage, now: u64) -> RateTable {
        match limited(message) {
            Some((category, mmsi)) => if self.should_forward(message, now) {
                RateTable {
                    last_sent: self.last_sent.insert(
                        mmsi,
                        self.record(mmsi, now).forwarded(category, now),
                    ),
                    ..self
                }
            } else {
                self
            },
            None => self,
        }
    }
}

/// The rate limiter and deduplication table.
pub struct RateLimiter {
    interval: u64,
    last_sent: HashMap<u32, LastSent>,
}

impl View for RateLimiter {
    type V = RateTable;

    closed spec fn view(&self) -> RateTable {
        RateTable { interval: self.interval, last_sent: self.last_sent@ }
    }
}

/// Decides [`LastSent::eligible`] for one stored time.
fn is_eligible(last: i128, now: u64, interval: u64) -> (eligible: bool)
    ensures
        eligible == (whole_seconds(elapsed_nanos(now as int, last as int)) >= interval),
{
    let now_wide: i128 = now as i128;
    if now_wide >= last {
        match now_wide.checked_sub(last) {
            Some(elapsed) => elapsed / (NANOS_PER_SEC as i128) >= interval as i128,
            // More has passed than the widest integer holds, and so more
            // than any interval.
            None => true,
        }
    } else {
        interval == 0
    }
}

impl RateLimiter {
    /// A limiter that has seen no vessel, for an interval in seconds.
    pub fn new(interval: u64) -> (limiter: Self)
        ensures
            limiter@ == (RateTable { interval, last_sent: Map::empty() }),
    {
        RateLimiter { interval, last_sent: HashMap::new() }
    }

    /// The configured interval in seconds.
    pub fn interval(&self) -> (interval: u64)
        ensures
            interval == self@.interval,
    {
        self.interval
    }

    /// The record held for `mmsi`, if the vessel was seen.
    pub fn last_sent(&self, mmsi: u32) -> (record: Option<LastSent>)
        ensures
            record == if self@.last_sent.contains_key(mmsi) {
                Some(self@.last_sent[mmsi])
            } else {
                None
            },
    {
        match self.last_sent.get(&mmsi) {
            Some(record) => Some(*record),
            None => None,
        }
    }

    /// Decides whether `message`, arriving at monotonic time `now`, is
    /// forwarded, and remembers a forward.
    pub fn check_last_sent(&mut self, message: &DecodedMessage, now: u64) -> (forward: bool)
        ensures
            forward == old(self)@.should_forward(*message, now),
            final(self)@ == old(self)@.checked(*message, now),
    {
        let (dynamic, mmsi): (bool, u32) = match message {
            DecodedMessage::VesselDynamicData { mmsi, .. } => (true, *mmsi),
            DecodedMessage::VesselStaticData { mmsi } => (false, *mmsi),
            _ => { return false; },
        };
        assert(0 <= self.interval * NANOS_PER_SEC <= u64::MAX * NANOS_PER_SEC) by (nonlinear_arith);
        let backdated: i128 = now as i128 - (self.interval as i128) * (NANOS_PER_SEC as i128);
        let record: LastSent = match self.last_sent.get(&mmsi) {
            Some(held) => *held,
            None => LastSent { vessel_dynamic_data: backdated, vessel_static_data: backdated },
        };
        assert(record == old(self)@.record(mmsi, now));
        if dynamic {
            if is_eligible(record.vessel_dynamic_data, now, self.interval) {
                self.last_sent.insert(
                    mmsi,
                    LastSent { vessel_dynamic_data: now as i128, ..record },
                );
                true
            } else {
                false
            }
        } else {
            if is_eligible(record.vessel_static_data, now, self.interval) {
                self.last_sent.insert(mmsi, LastSent { vessel_static_data: now as i128, ..record });
                true
            } else {
                false
            }
        }
    }
}

/// A backdated time is what it says: the clock reading less the interval,
/// and a report at or after that reading is eligible against it.
proof fn lemma_backdated(category: Category, now: u64, later: u64, interval: u64)
    requires
        later >= now,
    ensures
        LastSent::backdated(now, interval).of(category) == now - interval * NANOS_PER_SEC,
        LastSent::backdated(now, interval).eligible(category, later, interval),
{
    let span = interval * NANOS_PER_SEC;
    assert(0 <= span <= u64::MAX * NANOS_PER_SEC) by (nonlinear_arith)
        requires
            span == interval * NANOS_PER_SEC,
    ;
    lemma_div_multiples_vanish(interval as int, NANOS_PER_SEC as int);
    assert(span == NANOS_PER_SEC * interval) by (nonlinear_arith)
        requires
            span == interval * NANOS_PER_SEC,
    ;
    lemma_div_is_ordered(span, later - now + span, NANOS_PER_SEC as int);
}

/// The first report of a vessel that was never seen is forwarded, whatever
/// the interval.
pub proof fn lemma_first_report_is_forwarded(table: RateTable, message: DecodedMessage, now: u64)
    requires
        limited(message) matches Some((_, mmsi)) && !table.last_sent.contains_key(mmsi),
    ensures
        table.should_forward(message, now),
{
    let (category, mmsi) = limited(message).unwrap();
    lemma_backdated(category, now, now, table.interval);
}

/// The first dynamic and the first static report of a vessel are both
/// forwarded, in whichever order they come and however long the interval is.
pub proof fn lemma_first_report_of_each_category_is_forwarded(
    table: RateTable,
    message: DecodedMessage,
    other: DecodedMessage,
    now: u64,
    later: u64,
)
    requires
        limited(message) matches Some((category, mmsi)) && limited(other) matches Some(
            (other_category, other_mmsi),
        ) && mmsi == other_mmsi && category != other_category && !table.last_sent.contains_key(
            mmsi,
        ),
        later >= now,
    ensures
        table.should_forward(message, now),
        table.checked(message, now).should_forward(other, later),
{
    lemma_first_report_is_forwarded(table, message, now);
    lemma_first_report_is_forwarded(table, other, later);
    lemma_categories_are_independent(table, message, other, now, later);
}

/// After a forward at `first`, the next report of the same vessel in the same
/// category is forwarded exactly when at least the interval of whole seconds
/// separates the two.
pub proof fn lemma_next_report_waits_for_interval(
    table: RateTable,
    message: DecodedMessage,
    next: DecodedMessage,
    first: u64,
    second: u64,
)
    requires
        limited(message) is Some,
        limited(next) == limited(message),
        table.should_forward(message, first),
        second >= first,
    ensures
        table.checked(message, first).should_forward(next, second) <==> whole_seconds(
            second - first,
        ) >= table.interval,
{
}

/// A report does not change the decision on any later report of the other
/// category or of another vessel: a category's timer is moved only by a
/// forward in that category for that vessel.
pub proof fn lemma_categories_are_independent(
    table: RateTable,
    message: DecodedMessage,
    other: DecodedMessage,
    now: u64,
    later: u64,
)
    requires
        limited(other) != limited(message),
        later >= now,
    ensures
        table.checked(message, now).should_forward(other, later) == table.should_forward(
            other,
            later,
        ),
{
    if limited(message) is Some && limited(other) is Some {
        let (category, mmsi) = limited(message).unwrap();
        let (other_category, other_mmsi) = limited(other).unwrap();
        if mmsi == other_mmsi && !table.last_sent.contains_key(mmsi) {
            lemma_backdated(category, now, now, table.interval);
            lemma_backdated(other_category, now, later, table.interval);
            lemma_backdated(other_category, later, later, table.interval);
        }
    }
}

} // verus!
