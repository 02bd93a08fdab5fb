//! The dispatcher: what happens to one line of the provider's feed.
//!
//! The caller reads the feed, splits it into lines, lets the sentence decoder
//! look at each line and hands the line with the decoder's verdict to
//! [`Dispatcher::handle_line`]. The answer says what to do: send raw bytes to
//! every AIS endpoint, hand the message to the location reporter, both or
//! neither. The sending itself is steered by
//! [`Dispatcher::broadcast_ais`] and [`Dispatcher::advance_broadcast`].

use vstd::prelude::*;
use vstd::string::StringSliceAdditionalSpecFns;
use crate::cadence::Cadence;
use crate::cadence::CadenceState;
use crate::endpoint::NetworkEndpoint;
use crate::fanout::Broadcast;
use crate::fanout::FanOut;
use crate::fanout::FanOutStep;
use crate::message::DecodedMessage;
use crate::message::DecodeOutcome;
use crate::rate_limit::RateLimiter;
use crate::rate_limit::RateTable;
use crate::reassembly::buffered_after;
use crate::reassembly::raw_message;
use crate::reassembly::Reassembler;

verus! {

/// What the dispatcher holds, as mathematical values.
pub struct Forwarder {
    /// The fragments of the message that is being reassembled.
    pub fragments: Seq<u8>,
    /// The rate limiter's table.
    pub rate: RateTable,
    /// The location scheduler's state.
    pub cadence: Cadence,
    /// The AIS endpoints and the broadcast that is under way.
    pub ais: Broadcast,
}

/// The message that `outcome` completes, if any.
pub open spec fn completed(outcome: DecodeOutcome) -> Option<DecodedMessage> {
    match outcome {
        DecodeOutcome::Complete(message) => Some(message),
        _ => None,
    }
}

impl Forwarder {
    /// Whether `message`, decoded at wall-clock time `now`, describes the
    /// own vessel: a position fix always does, a dynamic report does when it
    /// is flagged so and a position fix was seen recently enough.
    pub open spec fn attributes_to_own_vessel(self, message: DecodedMessage, now: u64) -> bool {
        match message {
            DecodedMessage::VesselDynamicData { own_vessel, .. } => own_vessel
                && self.cadence.corroborates(now as int),
            DecodedMessage::PositionFix { .. } => true,
            _ => false,
        }
    }

    /// The scheduler's state once `message` was looked at and before its
    /// position is offered: a position fix is remembered as seen.
    pub open spec fn noted(self, message: DecodedMessage, now: u64) -> Cadence {
        match message {
            DecodedMessage::PositionFix { .. } => self.cadence.fix_seen(now as int),
            _ => self.cadence,
        }
    }

    /// Whether `message` is consulted with the rate limiter and the
    /// scheduler at all: it has both coordinates and is not at the origin.
    pub open spec fn considers(self, message: DecodedMessage) -> bool {
        message.has_usable_position()
    }

    /// Whether `message`, arriving at monotonic time `now`, is sent to the
    /// AIS endpoints.
    pub open spec fn forwards(self, message: DecodedMessage, now: u64) -> bool {
        self.considers(message) && self.rate.should_forward(message, now)
    }

    /// Whether `message`, decoded at wall-clock time `now`, is handed to
    /// the location reporter.
    pub open spec fn reports(self, message: DecodedMessage, now: u64) -> bool {
        &&& self.considers(message)
        &&& self.attributes_to_own_vessel(message, now)
        &&& self.noted(message, now).due(
            now as int,
            message.latitude().unwrap() as int,
            message.longitude().unwrap() as int,
        )
    }

    /// The rate limiter's table after `message` arrived at monotonic time
    /// `now`.
    pub open spec fn rate_after(self, message: DecodedMessage, now: u64) -> RateTable {
        if self.considers(message) {
            self.rate.checked(message, now)
        } else {
            self.rate
        }
    }

    /// The scheduler's state after `message` was decoded at wall-clock time
    /// `now`.
    pub open spec fn cadence_after(self, message: DecodedMessage, now: u64) -> Cadence {
        if self.considers(message) && self.attributes_to_own_vessel(message, now) {
            self.noted(message, now).offered(
                now as int,
                message.latitude().unwrap() as int,
                message.longitude().unwrap() as int,
            )
        } else {
            self.noted(message, now)
        }
    }

    /// The state after a line with the bytes `line` met `outcome`, at
    /// monotonic time `monotonic` and wall-clock time `wall`.
    pub open spec fn handled(
        self,
        line: Seq<u8>,
        outcome: DecodeOutcome,
        monotonic: u64,
        wall: u64,
    ) -> Forwarder {
        let fragments = buffered_after(self.fragments, line, outcome);
        match completed(outcome) {
            Some(message) => Forwarder {
                fragments,
                rate: self.rate_after(message, monotonic),
                cadence: self.cadence_after(message, wall),
                ais: self.ais,
            },
            None => Forwarder { fragments, ..self },
        }
    }

    /// The raw bytes to send to every AIS endpoint after a line with the
    /// bytes `line` met `outcome`, if there is anything to send.
    pub open spec fn broadcast(
        self,
        line: Seq<u8>,
        outcome: DecodeOutcome,
        monotonic: u64,
    ) -> Option<Seq<u8>> {
        match completed(outcome) {
            Some(message) => if self.forwards(message, monotonic) {
                raw_message(self.fragments, line, outcome)
            } else {
                None
            },
            None => None,
        }
    }

    /// Whether the message that `outcome` completes goes to the location
    /// reporter.
    pub open spec fn report_location(self, outcome: DecodeOutcome, wall: u64) -> bool {
        match completed(outcome) {
            Some(message) => self.reports(message, wall),
            None => false,
        }
    }
}

/// What is to be done about one line.
#[derive(Debug, PartialEq, Eq)]
pub struct Dispatch {
    /// The raw bytes to send to every AIS endpoint, if any.
    pub broadcast: Option<Vec<u8>>,
    /// Whether the decoded message goes to the location reporter.
    pub report_location: bool,
}

/// The state of the forwarder between two lines.
pub struct Dispatcher {
    fragments: Reassembler,
    last_sent: RateLimiter,
    location: CadenceState,
    ais: FanOut,
}

impl View for Dispatcher {
    type V = Forwarder;

    closed spec fn view(&self) -> Forwarder {
        Forwarder {
            fragments: self.fragments@,
            rate: self.last_sent@,
            cadence: self.location@,
            ais: self.ais@,
        }
    }
}

impl Dispatcher {
    /// A dispatcher for the AIS endpoints `ais` that starts at wall-clock
    /// time `now`, in nanoseconds since the epoch, with the three intervals
    /// in seconds.
    pub fn new(
        ais: Vec<NetworkEndpoint>,
        interval: u64,
        location_interval: u64,
        location_anchor_interval: u64,
        now: u64,
    ) -> (dispatcher: Self)
        requires
            location_interval > 0,
            location_anchor_interval > 0,
        ensures
            dispatcher@ == (Forwarder {
                fragments: Seq::empty(),
                rate: RateTable { interval, last_sent: Map::empty() },
                cadence: Cadence::start(
                    location_interval as int,
                    location_anchor_interval as int,
                    now as int,
                ),
                ais: Broadcast {
                    links: Seq::new(ais@.len(), |i: int| ais@[i]@),
                    current: ais@.len() as int,
                },
            }),
    {
        Dispatcher {
            fragments: Reassembler::new(),
            last_sent: RateLimiter::new(interval),
            location: CadenceState::new(location_interval, location_anchor_interval, now),
            ais: FanOut::new(ais),
        }
    }

    /// The rate limiter.
    pub fn last_sent(&self) -> (limiter: &RateLimiter)
        ensures
            limiter@ == self@.rate,
    {
        &self.last_sent
    }

    /// The location scheduler.
    pub fn location(&self) -> (scheduler: &CadenceState)
        ensures
            scheduler@ == self@.cadence,
    {
        &self.location
    }

    /// The fragment buffer.
    pub fn fragments(&self) -> (buffer: &Reassembler)
        ensures
            buffer@ == self@.fragments,
    {
        &self.fragments
    }

    /// The AIS endpoints and the broadcast that is under way.
    pub fn ais(&self) -> (ais: &FanOut)
        ensures
            ais@ == self@.ais,
    {
        &self.ais
    }

    /// Begins the broadcast of one message to every AIS endpoint and says
    /// what to do first.
    pub fn broadcast_ais(&mut self) -> (step: FanOutStep)
        ensures
            step == old(self)@.ais.first_step(),
            final(self)@ == (Forwarder { ais: old(self)@.ais.begun(), ..old(self)@ }),
    {
        self.ais.broadcast_ais()
    }

    /// Takes the outcome of the action that the broadcast asked for last,
    /// and says what follows.
    pub fn advance_broadcast(&mut self, succeeded: bool) -> (step: FanOutStep)
        ensures
            step == old(self)@.ais.next_step(succeeded),
            final(self)@ == (Forwarder { ais: old(self)@.ais.advanced(succeeded), ..old(self)@ }),
    {
        self.ais.advance(succeeded)
    }

    /// Takes the next line of the feed with what the decoder made of it.
    /// `monotonic` and `wall` are the readings of the two clocks, in
    /// nanoseconds, at the time the line was decoded.
    pub fn handle_line(
        &mut self,
        line: &str,
        outcome: &DecodeOutcome,
        monotonic: u64,
        wall: u64,
    ) -> (dispatch: Dispatch)
        ensures
            final(self)@ == old(self)@.handled(line.spec_bytes(), *outcome, monotonic, wall),
            dispatch.report_location == old(self)@.report_location(*outcome, wall),
            match dispatch.broadcast {
                Some(bytes) => old(self)@.broadcast(line.spec_bytes(), *outcome, monotonic) == Some(
                    bytes@,
                ),
                None => old(self)@.broadcast(line.spec_bytes(), *outcome, monotonic) is None,
            },
    {
        let raw = self.fragments.accept(line, outcome);
        let message: DecodedMessage = match outcome {
            DecodeOutcome::Complete(message) => *message,
            _ => { return Dispatch { broadcast: None, report_location: false }; },
        };
        let own_vessel: bool = match message {
            DecodedMessage::VesselDynamicData { own_vessel, .. } => own_vessel
                && self.location.corroborates(wall),
            DecodedMessage::PositionFix { .. } => {
                self.location.note_position_fix(wall);
                true
            },
            _ => false,
        };
        match message.usable_position() {
            Some((lat, long)) => {
                let forward = self.last_sent.check_last_sent(&message, monotonic);
                let report_location = own_vessel && self.location.check_location(wall, lat, long);
                Dispatch { broadcast: if forward { raw } else { None }, report_location }
            },
            None => Dispatch { broadcast: None, report_location: false },
        }
    }
}

/// A message at the origin `(0, 0)` is neither sent to the AIS endpoints nor
/// handed to the location reporter, and it moves neither the rate limiter
/// nor the scheduler's deadlines and remembered position.
pub proof fn lemma_origin_is_ignored(
    forwarder: Forwarder,
    message: DecodedMessage,
    monotonic: u64,
    wall: u64,
)
    requires
        message.latitude() == Some(0i64),
        message.longitude() == Some(0i64),
    ensures
        !forwarder.forwards(message, monotonic),
        !forwarder.reports(message, wall),
        forwarder.rate_after(message, monotonic) == forwarder.rate,
        forwarder.cadence_after(message, wall) == forwarder.noted(message, wall),
        forwarder.cadence_after(message, wall).next_location == forwarder.cadence.next_location,
        forwarder.cadence_after(message, wall).next_location_anchor
            == forwarder.cadence.next_location_anchor,
        forwarder.cadence_after(message, wall).prev_lat == forwarder.cadence.prev_lat,
        forwarder.cadence_after(message, wall).prev_long == forwarder.cadence.prev_long,
{
}

} // verus!
