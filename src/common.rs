use vstd::prelude::*;

verus! {

/// The relation between a counter's value before an increment, its value
/// after, and the value handed back.
pub open spec fn increment_step(before: nat, after: nat, returned: nat) -> bool {
    &&& returned == before + 1
    &&& after == returned
}

/// Counter of outbound message sequence numbers on one connection.
pub struct SequenceCounter {
    value: u32,
}

impl View for SequenceCounter {
    type V = nat;

    closed spec fn view(&self) -> nat {
        self.value as nat
    }
}

impl SequenceCounter {
    /// A counter holding `seed`; its first increment hands out `seed + 1`.
    pub fn new(seed: u32) -> (r: Self)
        ensures
            r@ == seed,
    {
        SequenceCounter { value: seed }
    }

    /// The value last handed out (or the seed), without changing it.
    pub fn current(&self) -> (r: u32)
        ensures
            r == self@,
    {
        self.value
    }

    /// Advances the counter by one and returns the new value.
    pub fn increment(&mut self) -> (r: u32)
        requires
            old(self)@ < u32::MAX,
        ensures
            increment_step(old(self)@, final(self)@, r as nat),
    {
        self.value = self.value + 1;
        self.value
    }
}

/// Draws the next sequence number from the shared counter.
pub fn increment_seqnum(seqnum: &mut SequenceCounter) -> (r: u32)
    requires
        old(seqnum)@ < u32::MAX,
    ensures
        increment_step(old(seqnum)@, final(seqnum)@, r as nat),
{
    seqnum.increment()
}

proof fn lemma_increment_value(states: Seq<nat>, returned: Seq<nat>, k: int)
    requires
        states.len() == returned.len() + 1,
        0 <= k < returned.len(),
        forall|i: int|
            0 <= i < returned.len() ==> #[trigger] increment_step(
                states[i],
                states[i + 1],
                returned[i],
            ),
    ensures
        returned[k] == states[0] + k + 1,
        states[k + 1] == returned[k],
    decreases k,
{
    assert(increment_step(states[k], states[k + 1], returned[k]));
    if k > 0 {
        lemma_increment_value(states, returned, k - 1);
    }
}

/// Successive increments of one counter hand out strictly increasing values,
/// each one more than the last, so no value is handed out twice.
pub proof fn lemma_increments_distinct(states: Seq<nat>, returned: Seq<nat>)
    requires
        states.len() == returned.len() + 1,
        forall|i: int|
            0 <= i < returned.len() ==> #[trigger] increment_step(
                states[i],
                states[i + 1],
                returned[i],
            ),
    ensures
        forall|i: int| 0 <= i < returned.len() ==> #[trigger] returned[i] == states[0] + i + 1,
        forall|i: int, j: int| 0 <= i < j < returned.len() ==> returned[i] < returned[j],
{
    assert forall|i: int| 0 <= i < returned.len() implies #[trigger] returned[i] == states[0] + i
        + 1 by {
        lemma_increment_value(states, returned, i);
    }
}

} // verus!
