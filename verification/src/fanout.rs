//! Delivery of one message to every AIS endpoint.
//!
//! The endpoints are served one after the other, in the order in which they
//! were configured. An endpoint that listens asks for nothing. A send that
//! fails ends the send to that endpoint and nothing else: the broadcast goes
//! on with the next endpoint.

use vstd::prelude::*;
use crate::endpoint::Link;
use crate::endpoint::NetworkEndpoint;
use crate::endpoint::SendAction;
use crate::endpoint::SendStep;

verus! {

/// Where a broadcast stands.
#[derive(Clone, Copy, Debug, PartialEq, Eq)]
pub enum FanOutStep {
    /// The caller is to perform the action on the sockets of the endpoint
    /// with this index and report how it went.
    Perform { endpoint: usize, action: SendAction },
    /// Every endpoint was served.
    Finished,
}

/// The state of the endpoints and of the broadcast, as plain values.
pub struct Broadcast {
    pub links: Seq<Link>,
    /// The index of the endpoint that is being served; the number of
    /// endpoints where none is.
    pub current: int,
}

/// The first endpoint at or after `from` to which something is sent, or the
/// number of endpoints where there is none.
pub open spec fn next_sender(links: Seq<Link>, from: int) -> int
    decreases links.len() - from,
{
    if from < 0 || from >= links.len() {
        links.len() as int
    } else if links[from].first_step() is Perform {
        from
    } else {
        next_sender(links, from + 1)
    }
}

impl Broadcast {
    /// The broadcast that turns to the first sender at or after `from`.
    pub open spec fn turned_to(links: Seq<Link>, from: int) -> Broadcast {
        let next = next_sender(links, from);
        if next < links.len() {
            Broadcast { links: links.update(next, links[next].begun()), current: next }
        } else {
            Broadcast { links, current: next }
        }
    }

    /// What is asked for when the broadcast turns to the first sender at or
    /// after `from`.
    pub open spec fn step_at(links: Seq<Link>, from: int) -> FanOutStep {
        let next = next_sender(links, from);
        if next < links.len() {
            FanOutStep::Perform {
                endpoint: next as usize,
                action: links[next].first_step()->Perform_0,
            }
        } else {
            FanOutStep::Finished
        }
    }

    /// Whether an endpoint is being served.
    pub open spec fn serving(self) -> bool {
        0 <= self.current < self.links.len()
    }

    /// The state after a broadcast was begun.
    pub open spec fn begun(self) -> Broadcast {
        Broadcast::turned_to(self.links, 0)
    }

    /// The first step of a broadcast.
    pub open spec fn first_step(self) -> FanOutStep {
        Broadcast::step_at(self.links, 0)
    }

    /// The endpoints once the awaited action succeeded or failed.
    pub open spec fn links_after(self, succeeded: bool) -> Seq<Link> {
        self.links.update(self.current, self.links[self.current].advanced(succeeded))
    }

    /// The state after the awaited action succeeded or failed.
    pub open spec fn advanced(self, succeeded: bool) -> Broadcast {
        if !self.serving() {
            Broadcast { links: self.links, current: self.links.len() as int }
        } else if self.links[self.current].next_step(succeeded) is Perform {
            Broadcast { links: self.links_after(succeeded), current: self.current }
        } else {
            Broadcast::turned_to(self.links_after(succeeded), self.current + 1)
        }
    }

    /// The step that follows once the awaited action succeeded or failed.
    pub open spec fn next_step(self, succeeded: bool) -> FanOutStep {
        if !self.serving() {
            FanOutStep::Finished
        } else {
            match self.links[self.current].next_step(succeeded) {
                SendStep::Perform(action) => FanOutStep::Perform {
                    endpoint: self.current as usize,
                    action,
                },
                SendStep::Finished(_) => Broadcast::step_at(
                    self.links_after(succeeded),
                    self.current + 1,
                ),
            }
        }
    }
}

/// The AIS endpoints and the broadcast that is under way.
pub struct FanOut {
    endpoints: Vec<NetworkEndpoint>,
    current: usize,
}

impl View for FanOut {
    type V = Broadcast;

    closed spec fn view(&self) -> Broadcast {
        Broadcast {
            links: Seq::new(self.endpoints@.len(), |i: int| self.endpoints@[i]@),
            current: self.current as int,
        }
    }
}

impl FanOut {
    /// The endpoints in the order in which they are served.
    pub fn new(endpoints: Vec<NetworkEndpoint>) -> (fan_out: Self)
        ensures
            fan_out@.links == Seq::new(endpoints@.len(), |i: int| endpoints@[i]@),
            fan_out@.current == endpoints@.len(),
    {
        let current = endpoints.len();
        FanOut { endpoints, current }
    }

    /// The number of endpoints.
    pub fn len(&self) -> (count: usize)
        ensures
            count == self@.links.len(),
    {
        self.endpoints.len()
    }

    /// The endpoint with the index `i`.
    pub fn endpoint(&self, i: usize) -> (endpoint: Option<NetworkEndpoint>)
        ensures
            match endpoint {
                Some(found) => i < self@.links.len() && found@ == self@.links[i as int],
                None => i >= self@.links.len(),
            },
    {
        if i < self.endpoints.len() {
            Some(self.endpoints[i])
        } else {
            None
        }
    }

    /// Turns to the first sender at or after `from`.
    fn turn_to(&mut self, from: usize) -> (step: FanOutStep)
        requires
            from <= old(self)@.links.len(),
        ensures
            final(self)@ == Broadcast::turned_to(old(self)@.links, from as int),
            step == Broadcast::step_at(old(self)@.links, from as int),
    {
        let mut i: usize = from;
        while i < self.endpoints.len()
            invariant
                from <= i <= self.endpoints@.len(),
                self.endpoints == old(self).endpoints,
                next_sender(old(self)@.links, from as int) == next_sender(
                    old(self)@.links,
                    i as int,
                ),
            decreases self.endpoints@.len() - i,
        {
            let mut endpoint = self.endpoints[i];
            match endpoint.send_message() {
                SendStep::Perform(action) => {
                    self.endpoints.set(i, endpoint);
                    self.current = i;
                    assert(final(self)@.links == old(self)@.links.update(
                        i as int,
                        old(self)@.links[i as int].begun(),
                    ));
                    return FanOutStep::Perform { endpoint: i, action };
                },
                SendStep::Finished(_) => {},
            }
            i += 1;
        }
        self.current = self.endpoints.len();
        assert(final(self)@.links == old(self)@.links);
        FanOutStep::Finished
    }

    /// Begins the broadcast of one message and says what to do first. A
    /// broadcast that was begun before and not finished is given up.
    pub fn broadcast_ais(&mut self) -> (step: FanOutStep)
        ensures
            step == old(self)@.first_step(),
            final(self)@ == old(self)@.begun(),
    {
        self.turn_to(0)
    }

    /// Takes the outcome of the action that was asked for last, and says
    /// what follows. Without such an action the broadcast is finished.
    pub fn advance(&mut self, succeeded: bool) -> (step: FanOutStep)
        ensures
            step == old(self)@.next_step(succeeded),
            final(self)@ == old(self)@.advanced(succeeded),
    {
        let current = self.current;
        if current >= self.endpoints.len() {
            self.current = self.endpoints.len();
            assert(final(self)@.links == old(self)@.links);
            return FanOutStep::Finished;
        }
        let mut endpoint = self.endpoints[current];
        let step = endpoint.advance(succeeded);
        self.endpoints.set(current, endpoint);
        assert(self@.links == old(self)@.links_after(succeeded));
        match step {
            SendStep::Perform(action) => FanOutStep::Perform { endpoint: current, action },
            SendStep::Finished(_) => self.turn_to(current + 1),
        }
    }
}

/// The endpoint that a broadcast turns to is a sender, no sender before it
/// was passed over, and it lies within the endpoints or past the last.
pub proof fn lemma_next_sender(links: Seq<Link>, from: int)
    requires
        0 <= from <= links.len(),
    ensures
        from <= next_sender(links, from) <= links.len(),
        next_sender(links, from) < links.len() ==> links[next_sender(links, from)].first_step()
            is Perform,
        forall|i: int|
            from <= i < next_sender(links, from) ==> !((#[trigger] links[i]).first_step()
                is Perform),
    decreases links.len() - from,
{
    if from < links.len() && !(links[from].first_step() is Perform) {
        lemma_next_sender(links, from + 1);
    }
}

/// A send that fails stops nothing but itself: once the send to the
/// endpoint that is served has ended, the broadcast turns to the same
/// endpoint next whether the message was delivered or not, and it is
/// finished only when no sender is left.
pub proof fn lemma_failure_does_not_stop_the_broadcast(broadcast: Broadcast)
    requires
        broadcast.serving(),
        broadcast.links[broadcast.current].next_step(true) is Finished,
        broadcast.links[broadcast.current].next_step(false) is Finished,
    ensures
        broadcast.advanced(false).current == broadcast.advanced(true).current,
        broadcast.advanced(false).current == next_sender(broadcast.links, broadcast.current + 1),
        broadcast.next_step(false) is Finished <==> next_sender(
            broadcast.links,
            broadcast.current + 1,
        ) == broadcast.links.len(),
{
    let k = broadcast.current;
    lemma_senders_after(broadcast.links, broadcast.links_after(true), k + 1);
    lemma_senders_after(broadcast.links, broadcast.links_after(false), k + 1);
    lemma_next_sender(broadcast.links, k + 1);
}

/// Which endpoint is turned to at or after `from` depends on the endpoints
/// from there on alone.
proof fn lemma_senders_after(links: Seq<Link>, changed: Seq<Link>, from: int)
    requires
        0 <= from <= links.len(),
        changed.len() == links.len(),
        forall|i: int| from <= i < links.len() ==> changed[i] == links[i],
    ensures
        next_sender(changed, from) == next_sender(links, from),
    decreases links.len() - from,
{
    if from < links.len() && !(links[from].first_step() is Perform) {
        lemma_senders_after(links, changed, from + 1);
    }
}

/// A broadcast moves forward only: the endpoint that is served is never
/// followed by an earlier one.
pub proof fn lemma_broadcast_moves_forward(broadcast: Broadcast, succeeded: bool)
    requires
        broadcast.serving(),
    ensures
        broadcast.current <= broadcast.advanced(succeeded).current <= broadcast.links.len(),
        broadcast.links[broadcast.current].next_step(succeeded) is Finished
            ==> broadcast.current < broadcast.advanced(succeeded).current,
{
    lemma_next_sender(broadcast.links_after(succeeded), broadcast.current + 1);
}

/// An upper bound on the outcomes that a send still takes in before it has
/// ended.
pub open spec fn outcomes_left(link: Link) -> nat {
    match link.pending {
        Some(SendAction::ProbeConnection) => 4,
        Some(SendAction::Connect) | Some(SendAction::Bind) => 3,
        Some(SendAction::Write) | Some(SendAction::SendDatagram) => 2,
        None => 1,
    }
}

/// An upper bound on the outcomes that a broadcast still takes in before it
/// is finished: four for every endpoint that has not been served yet.
pub open spec fn steps_left(broadcast: Broadcast) -> nat {
    if broadcast.serving() {
        outcomes_left(broadcast.links[broadcast.current]) + 4 * (broadcast.links.len() - 1
            - broadcast.current) as nat
    } else {
        0
    }
}

/// Every broadcast comes to an end: it begins with at most four steps left
/// for each endpoint, every outcome leaves fewer steps than there were, and a
/// broadcast that serves no endpoint is finished.
pub proof fn lemma_broadcast_ends(broadcast: Broadcast, succeeded: bool)
    ensures
        steps_left(broadcast.begun()) <= 4 * broadcast.links.len(),
        broadcast.serving() ==> steps_left(broadcast.advanced(succeeded)) < steps_left(broadcast),
        !broadcast.serving() ==> broadcast.next_step(succeeded) is Finished,
        broadcast.first_step() is Finished <==> !broadcast.begun().serving(),
        broadcast.next_step(succeeded) is Finished <==> !broadcast.advanced(succeeded).serving(),
{
    lemma_next_sender(broadcast.links, 0);
    if broadcast.serving() {
        lemma_next_sender(broadcast.links_after(succeeded), broadcast.current + 1);
    }
}

} // verus!
