//! Reassembly of sentences that arrive as several lines.
//!
//! Consumers downstream expect the text as it was received, so the raw bytes
//! of every line of a message are kept until the decoder has completed the
//! message, and are dropped when it rejects a line.

use vstd::prelude::*;
use vstd::string::StringSliceAdditionalSpecFns;
use crate::message::DecodedMessage;
use crate::message::DecodeOutcome;

verus! {

/// The fragment buffer after a line with the bytes `line` met `outcome`: a
/// fragment is appended, a completed or a rejected line leaves it empty.
pub open spec fn buffered_after(buffer: Seq<u8>, line: Seq<u8>, outcome: DecodeOutcome) -> Seq<u8> {
    match outcome {
        DecodeOutcome::Incomplete => buffer + line,
        _ => Seq::empty(),
    }
}

/// The raw bytes of the message that a line with the bytes `line` completes:
/// the buffered fragments followed by the line, with nothing in between.
pub open spec fn raw_message(buffer: Seq<u8>, line: Seq<u8>, outcome: DecodeOutcome) -> Option<
    Seq<u8>,
> {
    match outcome {
        DecodeOutcome::Complete(_) => Some(buffer + line),
        _ => None,
    }
}

/// The buffer of lines that belong to a message not yet complete.
pub struct Reassembler {
    fragments: Vec<u8>,
}

impl View for Reassembler {
    type V = Seq<u8>;

    closed spec fn view(&self) -> Seq<u8> {
        self.fragments@
    }
}

impl Reassembler {
    /// An empty buffer.
    pub fn new() -> (reassembler: Self)
        ensures
            reassembler@ == Seq::<u8>::empty(),
    {
        Reassembler { fragments: Vec::new() }
    }

    /// The number of bytes that wait for their message to complete.
    pub fn pending(&self) -> (bytes: usize)
        ensures
            bytes == self@.len(),
    {
        self.fragments.len()
    }

    /// Takes the next line together with what the decoder made of it, and
    /// hands out the raw bytes of the message if the line completed one.
    pub fn accept(&mut self, line: &str, outcome: &DecodeOutcome) -> (raw: Option<Vec<u8>>)
        ensures
            final(self)@ == buffered_after(old(self)@, line.spec_bytes(), *outcome),
            match raw {
                Some(bytes) => raw_message(old(self)@, line.spec_bytes(), *outcome) == Some(
                    bytes@,
                ),
                None => raw_message(old(self)@, line.spec_bytes(), *outcome) is None,
            },
    {
        match outcome {
            DecodeOutcome::Incomplete => {
                append(&mut self.fragments, line.as_bytes());
                None
            },
            DecodeOutcome::Complete(_) => {
                let mut raw: Vec<u8> = Vec::new();
                std::mem::swap(&mut self.fragments, &mut raw);
                append(&mut raw, line.as_bytes());
                Some(raw)
            },
            DecodeOutcome::Failed => {
                self.fragments.clear();
                None
            },
        }
    }
}

/// Appends `bytes` to `buffer`.
fn append(buffer: &mut Vec<u8>, bytes: &[u8])
    ensures
        final(buffer)@ == old(buffer)@ + bytes@,
{
    let mut i: usize = 0;
    while i < bytes.len()
        invariant
            i <= bytes@.len(),
            buffer@ == old(buffer)@ + bytes@.subrange(0, i as int),
        decreases bytes@.len() - i,
    {
        buffer.push(bytes[i]);
        i += 1;
    }
    assert(bytes@.subrange(0, i as int) == bytes@);
}

/// Two lines of which the decoder reports the first as a fragment and the
/// second as complete give one message, whose raw bytes are the two lines in
/// order with nothing in between.
pub proof fn lemma_fragments_are_joined(first: Seq<u8>, second: Seq<u8>, message: DecodedMessage)
    ensures
        raw_message(Seq::empty(), first, DecodeOutcome::Incomplete) is None,
        raw_message(
            buffered_after(Seq::empty(), first, DecodeOutcome::Incomplete),
            second,
            DecodeOutcome::Complete(message),
        ) == Some(first + second),
        buffered_after(
            buffered_after(Seq::empty(), first, DecodeOutcome::Incomplete),
            second,
            DecodeOutcome::Complete(message),
        ) == Seq::<u8>::empty(),
{
    assert(Seq::<u8>::empty() + first == first);
}

/// A line that the decoder rejects takes every buffered fragment with it:
/// the message that the next line completes holds that line alone.
pub proof fn lemma_rejected_line_discards_fragments(
    buffer: Seq<u8>,
    rejected: Seq<u8>,
    line: Seq<u8>,
    message: DecodedMessage,
)
    ensures
        raw_message(buffer, rejected, DecodeOutcome::Failed) is None,
        raw_message(
            buffered_after(buffer, rejected, DecodeOutcome::Failed),
            line,
            DecodeOutcome::Complete(message),
        ) == Some(line),
{
    assert(Seq::<u8>::empty() + line == line);
}

} // verus!
