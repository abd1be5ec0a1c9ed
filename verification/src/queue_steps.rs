use vstd::prelude::*;

use crate::input::{button_count, lemma_virtual_events, KeyEvent, QueueView};

verus! {

/// One call on an event queue: producing a frame of device events with the
/// input variables at its end, or confirming a frame.
pub enum QueueStep<V, P> {
    Produce(u32, Seq<KeyEvent<P>>, V),
    Confirm(u32),
}

impl<V, P> QueueView<V, P> {
    /// What one call does to a queue: `produce` and `confirm` change it as
    /// their contracts say when they succeed and leave it as it was when
    /// they fail.
    pub open spec fn step(self, s: QueueStep<V, P>) -> Self {
        match s {
            QueueStep::Produce(frame, keys, variables) => if frame == self.current_frame + 1 {
                self.produced(frame, keys, variables)
            } else {
                self
            },
            QueueStep::Confirm(frame) => if frame <= self.current_frame {
                self.confirmed(frame)
            } else {
                self
            },
        }
    }

    /// The queue after a sequence of calls.
    pub open spec fn run(self, steps: Seq<QueueStep<V, P>>) -> Self
        decreases steps.len(),
    {
        if steps.len() == 0 {
            self
        } else {
            self.run(steps.drop_last()).step(steps.last())
        }
    }

    /// How many logic events a sequence of calls makes: those of the device
    /// events of each frame that is produced, view and move changes aside.
    pub open spec fn events_made(self, steps: Seq<QueueStep<V, P>>) -> nat
        decreases steps.len(),
    {
        if steps.len() == 0 {
            0
        } else {
            self.events_made(steps.drop_last()) + match steps.last() {
                QueueStep::Produce(frame, keys, _) => if frame == self.run(steps.drop_last()).current_frame
                    + 1 {
                    button_count(keys)
                } else {
                    0
                },
                QueueStep::Confirm(_) => 0,
            }
        }
    }
}

/// How many device events the produce calls of a sequence hand in.
pub open spec fn keys_handed<V, P>(steps: Seq<QueueStep<V, P>>) -> nat
    decreases steps.len(),
{
    if steps.len() == 0 {
        0
    } else {
        keys_handed(steps.drop_last()) + match steps.last() {
            QueueStep::Produce(_, keys, _) => keys.len(),
            QueueStep::Confirm(_) => 0,
        }
    }
}

/// Over any sequence of calls, the id the next event gets rises by exactly
/// the number of logic events made: confirming never changes it, and a
/// queue fresh from `new` (next id 1) ends with next id 1 plus the number of
/// logic events made.
pub proof fn lemma_future_id_counts<V, P>(v: QueueView<V, P>, steps: Seq<QueueStep<V, P>>)
    requires
        v.future_id + keys_handed(steps) <= u64::MAX,
    ensures
        v.run(steps).future_id == v.future_id + v.events_made(steps),
        v.events_made(steps) <= keys_handed(steps),
    decreases steps.len(),
{
    if steps.len() > 0 {
        let prev = steps.drop_last();
        lemma_future_id_counts(v, prev);
        let w = v.run(prev);
        match steps.last() {
            QueueStep::Produce(frame, keys, variables) => {
                if frame == w.current_frame + 1 {
                    lemma_virtual_events(keys, w.future_id, frame);
                }
            },
            QueueStep::Confirm(frame) => {},
        }
    }
}

} // verus!
