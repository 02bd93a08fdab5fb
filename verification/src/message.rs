//! What the forwarder reads from a decoded sentence.

use vstd::prelude::*;
use crate::position::is_origin;

verus! {

/// A decoded message, reduced to the fields that decisions depend on.
/// Coordinates are in the units of [`crate::position`].
#[derive(Clone, Copy, Debug, PartialEq, Eq)]
pub enum DecodedMessage {
    /// A position report of a vessel. `own_vessel` says that the receiver's
    /// own transponder sent it.
    VesselDynamicData {
        mmsi: u32,
        latitude: Option<i64>,
        longitude: Option<i64>,
        own_vessel: bool,
    },
    /// Identity and voyage data of a vessel; it carries no position.
    VesselStaticData { mmsi: u32 },
    /// A position fix of the local receiver, which names no vessel.
    PositionFix { latitude: Option<i64>, longitude: Option<i64> },
    /// Any other message that could be decoded.
    Other,
}

/// What the sentence decoder made of one line.
#[derive(Clone, Copy, Debug, PartialEq, Eq)]
pub enum DecodeOutcome {
    /// The line is a fragment, and more fragments are needed.
    Incomplete,
    /// The line completed a message.
    Complete(DecodedMessage),
    /// The line could not be decoded.
    Failed,
}

impl DecodedMessage {
    /// The latitude that the message carries, if any.
    pub open spec fn latitude(self) -> Option<i64> {
        match self {
            DecodedMessage::VesselDynamicData { latitude, .. } => latitude,
            DecodedMessage::PositionFix { latitude, .. } => latitude,
            _ => None,
        }
    }

    /// The longitude that the message carries, if any.
    pub open spec fn longitude(self) -> Option<i64> {
        match self {
            DecodedMessage::VesselDynamicData { longitude, .. } => longitude,
            DecodedMessage::PositionFix { longitude, .. } => longitude,
            _ => None,
        }
    }

    /// Whether the message carries both coordinates and they are not the
    /// origin. Only such a message is forwarded or reported.
    pub open spec fn has_usable_position(self) -> bool {
        self.latitude() is Some && self.longitude() is Some && !is_origin(
            self.latitude().unwrap() as int,
            self.longitude().unwrap() as int,
        )
    }

    /// The position of the message as `(latitude, longitude)`, where it
    /// carries both coordinates and they are not the origin.
    pub fn usable_position(&self) -> (position: Option<(i64, i64)>)
        ensures
            position is Some <==> self.has_usable_position(),
            position matches Some(p) ==> self.latitude() == Some(p.0) && self.longitude() == Some(
                p.1,
            ),
    {
        let (latitude, longitude) = match self {
            DecodedMessage::VesselDynamicData { latitude, longitude, .. } => (
                *latitude,
                *longitude,
            ),
            DecodedMessage::PositionFix { latitude, longitude } => (*latitude, *longitude),
            _ => (None, None),
        };
        match (latitude, longitude) {
            (Some(lat), Some(long)) => {
                if lat != 0 || long != 0 {
                    Some((lat, long))
                } else {
                    None
                }
            },
            _ => None,
        }
    }
}

} // verus!
