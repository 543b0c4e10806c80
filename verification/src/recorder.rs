//! A capability implementation that drives no hardware and blocks nobody:
//! it writes down every call together with the moment at which the call
//! would have been made.

use vstd::prelude::*;
use crate::capability::{Blinky, CapabilityCall};
use crate::trace::{elapsed_ms, offset_ms};

verus! {

/// A recorded call and the moment at which it was made, in milliseconds.
#[derive(Clone, Copy, Debug, PartialEq, Eq, Structural)]
pub struct TimedCall {
    /// Reading of the recorder's clock when the call was made.
    pub at_ms: u64,
    /// The call.
    pub call: CapabilityCall,
}

/// A moment as the recorder's clock shows it: the clock stops at its largest
/// reading.
pub open spec fn clock_reading(moment: int) -> u64 {
    if moment <= u64::MAX {
        moment as u64
    } else {
        u64::MAX
    }
}

/// The calls of `events`, without their moments.
pub open spec fn calls_in(events: Seq<TimedCall>) -> Seq<CapabilityCall> {
    events.map_values(|event: TimedCall| event.call)
}

/// Records the calls it serves. Its clock starts at a chosen reading and
/// advances by the length of every delay it serves, and by nothing else.
pub struct Recorder {
    start_ms: u64,
    events: Vec<TimedCall>,
}

impl Recorder {
    #[verifier::type_invariant]
    spec fn well_formed(self) -> bool {
        forall|index: int|
            0 <= index < self.events@.len() ==> (#[trigger] self.events@[index]).at_ms
                == clock_reading(self.start_ms + offset_ms(calls_in(self.events@), index))
    }

    /// Reading of the clock before the first call.
    pub closed spec fn start_ms(&self) -> u64 {
        self.start_ms
    }

    /// What was recorded so far, oldest first.
    pub closed spec fn recorded(&self) -> Seq<TimedCall> {
        self.events@
    }

    /// A recorder with nothing recorded, whose clock reads `start_ms`.
    pub fn new(start_ms: u64) -> (recorder: Recorder)
        ensures
            recorder.start_ms() == start_ms,
            recorder.recorded() == Seq::<TimedCall>::empty(),
            recorder.history() == Seq::<CapabilityCall>::empty(),
    {
        Recorder { start_ms, events: Vec::new() }
    }

    /// Number of calls recorded.
    pub fn len(&self) -> (len: usize)
        ensures
            len == self.history().len(),
    {
        self.events.len()
    }

    /// Whether nothing was recorded yet.
    pub fn is_empty(&self) -> (empty: bool)
        ensures
            empty == (self.history().len() == 0),
    {
        self.events.len() == 0
    }

    /// Reading of the clock now: the start, advanced by every delay served.
    pub fn now_ms(&self) -> (now: u64)
        ensures
            now == clock_reading(self.start_ms() + elapsed_ms(self.history())),
    {
        proof {
            use_type_invariant(self);
        }
        let len = self.events.len();
        if len == 0 {
            self.start_ms
        } else {
            let last = self.events[len - 1];
            proof {
                // The last call was made when the calls before it had taken
                // their time; the clock has since advanced by its delay.
                let calls = calls_in(self.events@);
                assert(calls.take(len - 1) =~= calls.drop_last());
                assert(calls.last() == last.call);
            }
            match last.call {
                CapabilityCall::Delay(milliseconds) => last.at_ms.saturating_add(
                    milliseconds as u64,
                ),
                _ => last.at_ms,
            }
        }
    }

    /// What was recorded so far, oldest first: every call served, in the
    /// order served, each with the reading of the clock when it was made.
    pub fn events(&self) -> (events: &Vec<TimedCall>)
        ensures
            events@ == self.recorded(),
            calls_in(events@) == self.history(),
            forall|index: int|
                0 <= index < events@.len() ==> (#[trigger] events@[index]).at_ms == clock_reading(
                    self.start_ms() + offset_ms(self.history(), index),
                ),
    {
        proof {
            use_type_invariant(self);
        }
        &self.events
    }

    /// Serves `call`: writes it down with the present reading of the clock.
    fn record(&mut self, call: CapabilityCall)
        ensures
            final(self).history() == old(self).history().push(call),
            final(self).start_ms() == old(self).start_ms(),
            final(self).recorded() == old(self).recorded().push(
                TimedCall {
                    at_ms: clock_reading(old(self).start_ms() + elapsed_ms(old(self).history())),
                    call,
                },
            ),
    {
        let at_ms = self.now_ms();
        proof {
            use_type_invariant(&*self);
            let before = calls_in(self.events@);
            let after = before.push(call);
            assert(calls_in(self.events@.push(TimedCall { at_ms, call })) =~= after);
            assert(after.take(before.len() as int) =~= before);
            assert forall|index: int| 0 <= index < before.len() implies offset_ms(after, index)
                == offset_ms(before, index) by {
                assert(after.take(index) =~= before.take(index));
            }
        }
        let mut events: Vec<TimedCall> = Vec::new();
        core::mem::swap(&mut self.events, &mut events);
        events.push(TimedCall { at_ms, call });
        core::mem::swap(&mut self.events, &mut events);
    }
}

impl Blinky for Recorder {
    closed spec fn history(&self) -> Seq<CapabilityCall> {
        calls_in(self.events@)
    }

    fn activate(&mut self)
        ensures
            final(self).start_ms() == old(self).start_ms(),
            final(self).recorded() == old(self).recorded().push(
                TimedCall {
                    at_ms: clock_reading(old(self).start_ms() + elapsed_ms(old(self).history())),
                    call: CapabilityCall::Activate,
                },
            ),
    {
        self.record(CapabilityCall::Activate);
    }

    fn deactivate(&mut self)
        ensures
            final(self).start_ms() == old(self).start_ms(),
            final(self).recorded() == old(self).recorded().push(
                TimedCall {
                    at_ms: clock_reading(old(self).start_ms() + elapsed_ms(old(self).history())),
                    call: CapabilityCall::Deactivate,
                },
            ),
    {
        self.record(CapabilityCall::Deactivate);
    }

    fn delay(&mut self, milliseconds: u32)
        ensures
            final(self).start_ms() == old(self).start_ms(),
            final(self).recorded() == old(self).recorded().push(
                TimedCall {
                    at_ms: clock_reading(old(self).start_ms() + elapsed_ms(old(self).history())),
                    call: CapabilityCall::Delay(milliseconds),
                },
            ),
    {
        self.record(CapabilityCall::Delay(milliseconds));
    }
}

} // verus!
