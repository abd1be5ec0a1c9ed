use std::collections::VecDeque;
use std::sync::Arc;

use vstd::prelude::*;

use crate::base::{StateBase, StateType};
use crate::error::{XError, XResult};
use crate::ids::NumID;

verus! {

/// One saved state of a logic object: its header and its payload.
pub struct StateEntry<S> {
    pub base: StateBase,
    pub data: S,
}

/// All states saved for one frame.
pub struct StateSet<S> {
    pub frame: u32,
    pub inits: Vec<StateEntry<S>>,
    pub updates: Vec<StateEntry<S>>,
}

impl<S> StateSet<S> {
    /// An empty state set for `frame`; the capacities only reserve room.
    pub fn new(frame: u32, new_cap: usize, update_cap: usize) -> (r: StateSet<S>)
        ensures
            r.frame == frame,
            r.inits@.len() == 0,
            r.updates@.len() == 0,
    {
        StateSet { frame, inits: Vec::with_capacity(new_cap), updates: Vec::with_capacity(update_cap) }
    }
}

/// The position of the first update state with the given id, if any.
pub open spec fn first_with_id<S>(updates: Seq<StateEntry<S>>, id: NumID) -> Option<int> {
    if exists|i: int| 0 <= i < updates.len() && updates[i].base.id == id {
        let i = choose|i: int|
            0 <= i < updates.len() && updates[i].base.id == id && (forall|j: int|
                0 <= j < i ==> updates[j].base.id != id);
        Some(i)
    } else {
        None
    }
}

/// How many sets at the front of `sets` belong to frames before `frame`.
pub open spec fn leading_before<S>(sets: Seq<Arc<StateSet<S>>>, frame: u32) -> nat
    decreases sets.len(),
{
    if sets.len() == 0 {
        0
    } else if sets[0].frame < frame {
        1 + leading_before(sets.drop_first(), frame)
    } else {
        0
    }
}

proof fn lemma_leading_before_bound<S>(sets: Seq<Arc<StateSet<S>>>, frame: u32)
    ensures
        leading_before(sets, frame) <= sets.len(),
        forall|i: int| 0 <= i < leading_before(sets, frame) ==> #[trigger] sets[i].frame < frame,
        leading_before(sets, frame) < sets.len() ==> sets[leading_before(sets, frame) as int].frame
            >= frame,
    decreases sets.len(),
{
    if sets.len() > 0 && sets[0].frame < frame {
        lemma_leading_before_bound(sets.drop_first(), frame);
        assert forall|i: int| 0 <= i < leading_before(sets, frame) implies #[trigger] sets[i].frame
            < frame by {
            if i > 0 {
                assert(sets[i] == sets.drop_first()[i - 1]);
            }
        }
    }
}

/// One end of a range of frames.
#[derive(Debug, Clone, Copy, PartialEq, Eq, Structural)]
pub enum FrameBound {
    Included(u32),
    Excluded(u32),
    Unbounded,
}

/// The first frame of a range, given where the kept history starts.
pub open spec fn range_start(b: FrameBound, synced: u32) -> int {
    match b {
        FrameBound::Included(s) => s as int,
        FrameBound::Excluded(s) => s + 1,
        FrameBound::Unbounded => synced as int,
    }
}

/// The frame just past a range, given the current frame.
pub open spec fn range_end(b: FrameBound, current: u32) -> int {
    match b {
        FrameBound::Included(e) => e + 1,
        FrameBound::Excluded(e) => e as int,
        FrameBound::Unbounded => current + 1,
    }
}

/// The history of state sets, one per frame, from the last synchronized
/// frame up to the current frame.
pub struct SystemState<S> {
    state_sets: VecDeque<Arc<StateSet<S>>>,
    current_frame: u32,
    synced_frame: u32,
}

impl<S> SystemState<S> {
    /// The saved sets, oldest first.
    pub closed spec fn sets(&self) -> Seq<Arc<StateSet<S>>> {
        self.state_sets@
    }

    pub closed spec fn spec_current_frame(&self) -> u32 {
        self.current_frame
    }

    pub closed spec fn spec_synced_frame(&self) -> u32 {
        self.synced_frame
    }

    /// The synchronized frame does not lie after the current frame.  A new
    /// history has this order and every call keeps it, so every history
    /// reached by calls has it.
    pub open spec fn frames_ordered(&self) -> bool {
        self.spec_synced_frame() <= self.spec_current_frame()
    }

    /// The sets hold one set per frame, from the synchronized frame up to
    /// the current one, in order.
    pub open spec fn consecutive(&self) -> bool {
        &&& self.spec_synced_frame() <= self.spec_current_frame()
        &&& self.sets().len() == self.spec_current_frame() - self.spec_synced_frame() + 1
        &&& forall|i: int|
            0 <= i < self.sets().len() ==> #[trigger] self.sets()[i].frame == self.spec_synced_frame()
                + i
    }

    pub fn new() -> (r: SystemState<S>)
        ensures
            r.frames_ordered(),
            r.sets().len() == 0,
            r.spec_current_frame() == 0,
            r.spec_synced_frame() == 0,
    {
        SystemState { state_sets: VecDeque::with_capacity(120), current_frame: 0, synced_frame: 0 }
    }

    /// The latest frame whose states have been appended.
    pub fn current_frame(&self) -> (r: u32)
        ensures
            r == self.spec_current_frame(),
    {
        self.current_frame
    }

    /// The frame up to which the states are confirmed.
    pub fn synced_frame(&self) -> (r: u32)
        ensures
            r == self.spec_synced_frame(),
    {
        self.synced_frame
    }

    /// How many sets the history holds.
    pub fn len(&self) -> (r: usize)
        ensures
            r == self.sets().len(),
    {
        self.state_sets.len()
    }

    /// The first frame that is not confirmed.
    pub fn unsynced_frame(&self) -> (r: u32)
        requires
            self.spec_synced_frame() < u32::MAX,
        ensures
            r == self.spec_synced_frame() + 1,
    {
        self.synced_frame + 1
    }

    /// Stores the set of the initial frame; only a set of frame 0 is taken.
    pub fn init(&mut self, state_set: Arc<StateSet<S>>) -> (r: XResult<()>)
        ensures
            old(self).frames_ordered() ==> final(self).frames_ordered(),
            final(self).spec_synced_frame() >= old(self).spec_synced_frame(),
            r is Ok <==> state_set.frame == 0,
            r matches Err(e) ==> e == XError::BadArgument,
            r is Ok ==> final(self).sets() == old(self).sets().push(state_set),
            r is Err ==> final(self).sets() == old(self).sets(),
            final(self).spec_current_frame() == old(self).spec_current_frame(),
            final(self).spec_synced_frame() == old(self).spec_synced_frame(),
    {
        if state_set.frame != 0 {
            return Err(XError::BadArgument);
        }
        self.state_sets.push_back(state_set);
        Ok(())
    }

    /// Stores the set of the frame after the current one and advances the
    /// current frame to it.
    pub fn append(&mut self, state_set: Arc<StateSet<S>>) -> (r: XResult<()>)
        requires
            old(self).spec_current_frame() < u32::MAX,
        ensures
            old(self).frames_ordered() ==> final(self).frames_ordered(),
            final(self).spec_synced_frame() >= old(self).spec_synced_frame(),
            r is Ok <==> state_set.frame == old(self).spec_current_frame() + 1,
            r matches Err(e) ==> e == XError::BadArgument,
            r is Ok ==> final(self).sets() == old(self).sets().push(state_set)
                && final(self).spec_current_frame() == old(self).spec_current_frame() + 1,
            r is Err ==> final(self).sets() == old(self).sets() && final(self).spec_current_frame()
                == old(self).spec_current_frame(),
            final(self).spec_synced_frame() == old(self).spec_synced_frame(),
    {
        if state_set.frame != self.current_frame + 1 {
            return Err(XError::BadArgument);
        }
        self.current_frame = self.current_frame + 1;
        self.state_sets.push_back(state_set);
        Ok(())
    }

    /// Marks the frames before `synced_frame` as confirmed, drops their sets
    /// from the front of the history and hands them back.
    pub fn confirm(&mut self, synced_frame: u32) -> (r: XResult<Vec<Arc<StateSet<S>>>>)
        ensures
            old(self).frames_ordered() ==> final(self).frames_ordered(),
            final(self).spec_synced_frame() >= old(self).spec_synced_frame(),
            r is Err <==> synced_frame > old(self).spec_current_frame(),
            r matches Err(e) ==> e == XError::BadArgument,
            final(self).spec_current_frame() == old(self).spec_current_frame(),
            r is Err || synced_frame <= old(self).spec_synced_frame() ==> {
                &&& final(self).sets() == old(self).sets()
                &&& final(self).spec_synced_frame() == old(self).spec_synced_frame()
                &&& r matches Ok(outs) ==> outs@.len() == 0
            },
            r is Ok && synced_frame > old(self).spec_synced_frame() ==> {
                let k = leading_before(old(self).sets(), synced_frame) as int;
                &&& r->Ok_0@ == old(self).sets().take(k)
                &&& final(self).sets() == old(self).sets().skip(k)
                &&& final(self).spec_synced_frame() == synced_frame
            },
    {
        let mut outs: Vec<Arc<StateSet<S>>> = Vec::new();
        if synced_frame > self.current_frame {
            return Err(XError::BadArgument);
        }
        if synced_frame <= self.synced_frame {
            return Ok(outs);
        }
        let ghost old_sets = self.state_sets@;
        proof {
            lemma_leading_before_bound(old_sets, synced_frame);
        }
        while self.state_sets.len() > 0 && self.state_sets[0].frame < synced_frame
            invariant
                outs@ + self.state_sets@ == old_sets,
                self.current_frame == old(self).current_frame,
                self.synced_frame == old(self).synced_frame,
                outs@.len() + leading_before(self.state_sets@, synced_frame) == leading_before(
                    old_sets,
                    synced_frame,
                ),
            decreases self.state_sets@.len(),
        {
            let ghost before = self.state_sets@;
            let front = self.state_sets.pop_front();
            match front {
                Some(state_set) => {
                    proof {
                        assert(self.state_sets@ == before.drop_first());
                    }
                    outs.push(state_set);
                    proof {
                        assert(outs@ + self.state_sets@ =~= old_sets);
                    }
                },
                None => {},
            }
        }
        proof {
            let k = leading_before(old_sets, synced_frame) as int;
            assert(leading_before(self.state_sets@, synced_frame) == 0);
            assert(outs@.len() == k);
            assert(outs@ =~= old_sets.take(k));
            assert(self.state_sets@ =~= old_sets.skip(k));
        }
        self.synced_frame = synced_frame;
        Ok(outs)
    }

    /// Rolls the current frame back to `frame`.  While the newest set lies
    /// after `frame`, sets are dropped from the front of the history, so a
    /// history whose newest set lies after `frame` ends up empty.
    pub fn restore(&mut self, frame: u32) -> (r: XResult<()>)
        ensures
            old(self).frames_ordered() ==> final(self).frames_ordered(),
            final(self).spec_synced_frame() >= old(self).spec_synced_frame(),
            r is Ok <==> old(self).spec_synced_frame() <= frame <= old(self).spec_current_frame(),
            r matches Err(e) ==> e == XError::BadArgument,
            final(self).spec_synced_frame() == old(self).spec_synced_frame(),
            r is Err ==> final(self).sets() == old(self).sets() && final(self).spec_current_frame()
                == old(self).spec_current_frame(),
            r is Ok ==> {
                &&& final(self).spec_current_frame() == frame
                &&& final(self).sets() == if old(self).sets().len() > 0 && old(self).sets().last().frame
                    > frame {
                    Seq::<Arc<StateSet<S>>>::empty()
                } else {
                    old(self).sets()
                }
            },
    {
        if frame < self.synced_frame || frame > self.current_frame {
            return Err(XError::BadArgument);
        }
        let ghost old_sets = self.state_sets@;
        while self.state_sets.len() > 0 && self.state_sets[self.state_sets.len() - 1].frame > frame
            invariant
                old_sets.len() > 0 && old_sets.last().frame > frame ==> (self.state_sets@.len() > 0
                    ==> self.state_sets@.last() == old_sets.last()),
                !(old_sets.len() > 0 && old_sets.last().frame > frame) ==> self.state_sets@
                    == old_sets,
                self.current_frame == old(self).current_frame,
                self.synced_frame == old(self).synced_frame,
            decreases self.state_sets@.len(),
        {
            let ghost before = self.state_sets@;
            let _ = self.state_sets.pop_front();
            proof {
                if self.state_sets@.len() > 0 {
                    assert(self.state_sets@.last() == before.last());
                }
            }
        }
        proof {
            if old_sets.len() > 0 && old_sets.last().frame > frame {
                assert(self.state_sets@ =~= Seq::<Arc<StateSet<S>>>::empty());
            }
        }
        self.current_frame = frame;
        Ok(())
    }

    /// The set at position `frame - synced_frame` of the history, when
    /// `frame` lies between the synchronized and the current frame.
    pub fn get(&self, frame: u32) -> (r: Option<&Arc<StateSet<S>>>)
        ensures
            r matches Some(s) ==> self.spec_synced_frame() <= frame <= self.spec_current_frame()
                && frame - self.spec_synced_frame() < self.sets().len() && *s == self.sets()[frame
                - self.spec_synced_frame()],
            r is None <==> !(self.spec_synced_frame() <= frame <= self.spec_current_frame()
                && frame - self.spec_synced_frame() < self.sets().len()),
    {
        if frame < self.synced_frame || frame > self.current_frame {
            return None;
        }
        let idx = (frame - self.synced_frame) as usize;
        if idx < self.state_sets.len() {
            Some(&self.state_sets[idx])
        } else {
            None
        }
    }

    /// The set of `frame`, which the history holds.
    pub fn index(&self, frame: u32) -> (r: &Arc<StateSet<S>>)
        requires
            self.spec_synced_frame() <= frame <= self.spec_current_frame(),
            frame - self.spec_synced_frame() < self.sets().len(),
        ensures
            *r == self.sets()[frame - self.spec_synced_frame()],
    {
        let idx = (frame - self.synced_frame) as usize;
        &self.state_sets[idx]
    }

    /// The sets of the frames in a range, when the range starts no earlier
    /// than the synchronized frame and ends within the history.
    pub fn range(&self, start: FrameBound, end: FrameBound) -> (r: XResult<Vec<&Arc<StateSet<S>>>>)
        requires
            range_start(start, self.spec_synced_frame()) <= u32::MAX,
            range_end(end, self.spec_current_frame()) <= u32::MAX,
            range_start(start, self.spec_synced_frame()) >= self.spec_synced_frame() ==> {
                &&& range_end(end, self.spec_current_frame()) >= self.spec_synced_frame()
                &&& range_end(end, self.spec_current_frame()) - self.spec_synced_frame()
                    <= self.sets().len() ==> range_start(start, self.spec_synced_frame()) <= range_end(
                    end,
                    self.spec_current_frame(),
                )
            },
        ensures
            ({
                let s = range_start(start, self.spec_synced_frame());
                let e = range_end(end, self.spec_current_frame());
                let synced = self.spec_synced_frame();
                &&& r is Ok <==> (s >= synced && e - synced <= self.sets().len())
                &&& r matches Err(err) ==> err == XError::BadArgument
                &&& r matches Ok(v) ==> {
                    &&& v@.len() == e - s
                    &&& forall|i: int|
                        0 <= i < v@.len() ==> *#[trigger] v@[i] == self.sets()[s - synced + i]
                }
            }),
    {
        let start_frame: u32 = match start {
            FrameBound::Included(s) => s,
            FrameBound::Excluded(s) => s + 1,
            FrameBound::Unbounded => self.synced_frame,
        };
        if start_frame < self.synced_frame {
            return Err(XError::BadArgument);
        }
        let start_pos = (start_frame - self.synced_frame) as usize;
        let end_frame: u32 = match end {
            FrameBound::Included(e) => e + 1,
            FrameBound::Excluded(e) => e,
            FrameBound::Unbounded => self.current_frame + 1,
        };
        let end_pos = (end_frame - self.synced_frame) as usize;
        if end_pos > self.state_sets.len() {
            return Err(XError::BadArgument);
        }
        let mut out: Vec<&Arc<StateSet<S>>> = Vec::new();
        let mut pos = start_pos;
        while pos < end_pos
            invariant
                start_pos <= pos <= end_pos <= self.state_sets@.len(),
                out@.len() == pos - start_pos,
                forall|i: int|
                    0 <= i < out@.len() ==> *#[trigger] out@[i] == self.state_sets@[start_pos + i],
            decreases end_pos - pos,
        {
            out.push(&self.state_sets[pos]);
            pos = pos + 1;
        }
        Ok(out)
    }
}

impl<S> Default for SystemState<S> {
    fn default() -> (r: Self)
        ensures
            r.frames_ordered(),
            r.sets().len() == 0,
            r.spec_current_frame() == 0,
            r.spec_synced_frame() == 0,
    {
        Self::new()
    }
}

/// A fresh history that takes the set of frame 0 holds one set per frame.
pub proof fn lemma_init_consecutive<S>(before: SystemState<S>, after: SystemState<S>, set: Arc<StateSet<S>>)
    requires
        before.sets().len() == 0,
        before.spec_current_frame() == 0,
        before.spec_synced_frame() == 0,
        set.frame == 0,
        after.sets() == before.sets().push(set),
        after.spec_current_frame() == before.spec_current_frame(),
        after.spec_synced_frame() == before.spec_synced_frame(),
    ensures
        after.consecutive(),
{
    assert(after.sets()[0] == set);
}

/// Appending the set of the next frame keeps one set per frame.
pub proof fn lemma_append_consecutive<S>(before: SystemState<S>, after: SystemState<S>, set: Arc<StateSet<S>>)
    requires
        before.consecutive(),
        before.spec_current_frame() < u32::MAX,
        set.frame == before.spec_current_frame() + 1,
        after.sets() == before.sets().push(set),
        after.spec_current_frame() == before.spec_current_frame() + 1,
        after.spec_synced_frame() == before.spec_synced_frame(),
    ensures
        after.consecutive(),
{
    assert forall|i: int| 0 <= i < after.sets().len() implies #[trigger] after.sets()[i].frame
        == after.spec_synced_frame() + i by {
        if i < before.sets().len() {
            assert(after.sets()[i] == before.sets()[i]);
        }
    }
}

/// In a history with one set per frame, the sets before a frame `f` are
/// exactly the first `f - synced` ones.
pub proof fn lemma_consecutive_leading<S>(st: SystemState<S>, f: u32)
    requires
        st.consecutive(),
        st.spec_synced_frame() <= f <= st.spec_current_frame(),
    ensures
        leading_before(st.sets(), f) == f - st.spec_synced_frame(),
{
    let sets = st.sets();
    let k = leading_before(sets, f) as int;
    lemma_leading_before_bound(sets, f);
    if k > 0 {
        assert(sets[k - 1].frame < f);
    }
    if k < sets.len() {
        assert(sets[k].frame >= f);
    } else {
        assert(sets[sets.len() - 1].frame < f);
    }
}

/// Confirming a frame of a history with one set per frame hands back the
/// sets of the frames before it and keeps one set per frame.
pub proof fn lemma_confirm_consecutive<S>(before: SystemState<S>, after: SystemState<S>, f: u32)
    requires
        before.consecutive(),
        before.spec_synced_frame() < f <= before.spec_current_frame(),
        after.sets() == before.sets().skip(leading_before(before.sets(), f) as int),
        after.spec_synced_frame() == f,
        after.spec_current_frame() == before.spec_current_frame(),
    ensures
        after.consecutive(),
        leading_before(before.sets(), f) == f - before.spec_synced_frame(),
{
    lemma_consecutive_leading(before, f);
    let k = (f - before.spec_synced_frame()) as int;
    assert forall|i: int| 0 <= i < after.sets().len() implies #[trigger] after.sets()[i].frame
        == after.spec_synced_frame() + i by {
        assert(after.sets()[i] == before.sets()[k + i]);
    }
}

/// In a history with one set per frame, the set stored for a frame between
/// the synchronized and the current frame is the set of that frame, so `get`
/// finds it.
pub proof fn lemma_consecutive_get<S>(st: SystemState<S>, f: u32)
    requires
        st.consecutive(),
        st.spec_synced_frame() <= f <= st.spec_current_frame(),
    ensures
        f - st.spec_synced_frame() < st.sets().len(),
        st.sets()[f - st.spec_synced_frame()].frame == f,
{
    assert(st.sets()[f - st.spec_synced_frame()].frame == st.spec_synced_frame() + (f
        - st.spec_synced_frame()));
}

/// Where restoring finds the states saved for one frame.
pub struct ContextRestore<S> {
    pub frame: u32,
    pub state_set: Arc<StateSet<S>>,
}

impl<S> ContextRestore<S> {
    pub fn new(state_set: Arc<StateSet<S>>) -> (r: ContextRestore<S>)
        ensures
            r.frame == state_set.frame,
            r.state_set == state_set,
    {
        ContextRestore { frame: state_set.frame, state_set }
    }

    /// The first update state of the object `id`; `LogicNotFound` when the
    /// set holds none.
    pub fn find(&self, id: NumID) -> (r: XResult<&StateEntry<S>>)
        ensures
            ({
                let ups = self.state_set.updates@;
                match first_with_id(ups, id) {
                    Some(i) => r matches Ok(e) && *e == ups[i],
                    None => r == Err::<&StateEntry<S>, XError>(XError::LogicNotFound),
                }
            }),
    {
        let ups = &self.state_set.updates;
        let mut i: usize = 0;
        while i < ups.len()
            invariant
                i <= ups@.len(),
                ups@ == self.state_set.updates@,
                forall|j: int| 0 <= j < i ==> ups@[j].base.id != id,
            decreases ups@.len() - i,
        {
            if ups[i].base.id == id {
                proof {
                    assert(exists|k: int| 0 <= k < ups@.len() && ups@[k].base.id == id) by {
                        assert(ups@[i as int].base.id == id);
                    }
                    let c = choose|k: int|
                        0 <= k < ups@.len() && ups@[k].base.id == id && (forall|j: int|
                            0 <= j < k ==> ups@[j].base.id != id);
                    assert(0 <= i < ups@.len() && ups@[i as int].base.id == id && (forall|j: int|
                        0 <= j < i ==> ups@[j].base.id != id));
                    if c < i {
                    } else if c > i {
                    }
                    assert(c == i);
                }
                return Ok(&ups[i]);
            }
            i = i + 1;
        }
        Err(XError::LogicNotFound)
    }

    /// The first update state of the object `id`, provided it is of kind
    /// `typ`: `LogicNotFound` when the set holds no state of `id`, and
    /// `Unexpected` when the first one is of another kind.
    pub fn find_as(&self, id: NumID, typ: StateType) -> (r: XResult<&StateEntry<S>>)
        ensures
            ({
                let ups = self.state_set.updates@;
                match first_with_id(ups, id) {
                    Some(i) => if ups[i].base.typ == typ {
                        r matches Ok(e) && *e == ups[i]
                    } else {
                        r == Err::<&StateEntry<S>, XError>(XError::Unexpected)
                    },
                    None => r == Err::<&StateEntry<S>, XError>(XError::LogicNotFound),
                }
            }),
    {
        match self.find(id) {
            Ok(entry) => {
                if entry.base.typ == typ {
                    Ok(entry)
                } else {
                    Err(XError::Unexpected)
                }
            },
            Err(e) => Err(e),
        }
    }
}

} // verus!
