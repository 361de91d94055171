use vstd::prelude::*;
use crate::order::{ReadEvent, Next};

verus! {

/// Listening for replies to a quote or subscription request over a fixed
/// number of epochs, one read each; replies are shown, never correlated.
pub struct RfqListener {
    /// Epochs taken so far.
    pub epoch: u32,
    /// Epochs allowed.
    pub limit: u32,
    /// Milliseconds to pause after a read that delivered data.
    pub pause_ms: u64,
}

impl RfqListener {
    /// A listener with `limit` epochs and no epoch taken.
    pub fn new(limit: u32, pause_ms: u64) -> (r: Self)
        ensures
            r.epoch == 0,
            r.limit == limit,
            r.pause_ms == pause_ms,
    {
        RfqListener { epoch: 0, limit, pause_ms }
    }

    /// Whether another epoch may be taken.
    pub fn has_epochs_left(&self) -> (r: bool)
        ensures
            r == (self.epoch < self.limit),
    {
        self.epoch < self.limit
    }

    /// Counts one epoch after its read: the listening ends with the last
    /// allowed epoch and never earlier; otherwise the pause follows a read
    /// that delivered data, and a failed read is followed at once.
    pub fn on_read(&mut self, event: &ReadEvent) -> (r: Next)
        requires
            old(self).epoch < old(self).limit,
        ensures
            final(self).epoch == old(self).epoch + 1,
            final(self).limit == old(self).limit,
            final(self).pause_ms == old(self).pause_ms,
            r == if final(self).epoch >= final(self).limit {
                Next::Finished
            } else if event is Data {
                Next::ReadAgain(old(self).pause_ms)
            } else {
                Next::ReadAgain(0)
            },
    {
        self.epoch = self.epoch + 1;
        if self.epoch >= self.limit {
            Next::Finished
        } else {
            match event {
                ReadEvent::Data(_) => Next::ReadAgain(self.pause_ms),
                _ => Next::ReadAgain(0),
            }
        }
    }
}

} // verus!
