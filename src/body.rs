use vstd::prelude::*;

verus! {

/// What a worker does with the body of a successful response.
#[derive(Debug, PartialEq, Eq, Structural)]
pub enum BodyAction {
    /// Nothing: per-request lines are silenced, so the body is not read.
    Skip,
    /// The response declares an empty body: log the status line alone.
    LogStatusOnly,
    /// Read the body to its end, then log it.
    Drain,
}

/// Decides what to do with a successful response's body, from the silent
/// flag and the length the response declares, if any.
pub fn body_action(silent: bool, content_length: Option<u64>) -> (r: BodyAction)
    ensures
        silent ==> r == BodyAction::Skip,
        !silent && content_length == Some(0u64) ==> r == BodyAction::LogStatusOnly,
        !silent && content_length != Some(0u64) ==> r == BodyAction::Drain,
{
    if silent {
        BodyAction::Skip
    } else {
        match content_length {
            Some(n) => if n == 0 {
                BodyAction::LogStatusOnly
            } else {
                BodyAction::Drain
            },
            None => BodyAction::Drain,
        }
    }
}

/// A worker's buffer for response bodies: cleared before each response and
/// reused, so its storage is kept from one request to the next.
pub struct BodyBuffer {
    bytes: Vec<u8>,
}

impl View for BodyBuffer {
    type V = Seq<u8>;

    closed spec fn view(&self) -> Seq<u8> {
        self.bytes@
    }
}

impl BodyBuffer {
    pub fn new() -> (b: BodyBuffer)
        ensures
            b@.len() == 0,
    {
        BodyBuffer { bytes: Vec::new() }
    }

    /// Empties the buffer before the next body.
    pub fn clear(&mut self)
        ensures
            final(self)@.len() == 0,
    {
        self.bytes.clear();
    }

    /// Appends one chunk of the body as it arrives.
    pub fn append(&mut self, chunk: &[u8])
        ensures
            final(self)@ == old(self)@ + chunk@,
    {
        self.bytes.extend_from_slice(chunk);
    }

    /// Whether the body read so far is empty; an empty body is logged as a
    /// status line alone.
    pub fn is_empty(&self) -> (r: bool)
        ensures
            r == (self@.len() == 0),
    {
        self.bytes.len() == 0
    }

    /// The body read so far.
    pub fn as_slice(&self) -> (r: &[u8])
        ensures
            r@ == self@,
    {
        self.bytes.as_slice()
    }
}

} // verus!
