use std::collections::VecDeque;

use vstd::prelude::*;

use crate::error::{XError, XResult};
use crate::ids::{NumID, MAX_PLAYER, MIN_PLAYER_ID};

verus! {

/// The id of the first event a queue hands out.
pub const FIRST_EVENT_ID: u64 = 1;

/// A key of an input device.
#[derive(Debug, Clone, Copy, PartialEq, Eq, Hash, Structural)]
pub enum RawKey {
    Move,
    View,
    Attack1,
    Attack2,
    Attack3,
    Attack4,
    Attack5,
    Skill1,
    Skill2,
    Skill3,
    Skill4,
    Dodge,
    Jump,
    Guard,
    Interact,
    Lock,
    Aim,
    Shot1,
    Shot2,
}

/// A key as the game logic sees it; `Idle` is the key of the idle action,
/// which no device key stands for.
#[derive(Debug, Clone, Copy, PartialEq, Eq, Hash, Structural)]
pub enum VirtualKey {
    Idle,
    Move,
    View,
    Attack1,
    Attack2,
    Attack3,
    Attack4,
    Attack5,
    Skill1,
    Skill2,
    Skill3,
    Skill4,
    Dodge,
    Jump,
    Guard,
    Interact,
    Lock,
    Aim,
    Shot1,
    Shot2,
}

/// The logic key that a device key stands for.
pub open spec fn spec_virtual_key(k: RawKey) -> VirtualKey {
    match k {
        RawKey::Move => VirtualKey::Move,
        RawKey::View => VirtualKey::View,
        RawKey::Attack1 => VirtualKey::Attack1,
        RawKey::Attack2 => VirtualKey::Attack2,
        RawKey::Attack3 => VirtualKey::Attack3,
        RawKey::Attack4 => VirtualKey::Attack4,
        RawKey::Attack5 => VirtualKey::Attack5,
        RawKey::Skill1 => VirtualKey::Skill1,
        RawKey::Skill2 => VirtualKey::Skill2,
        RawKey::Skill3 => VirtualKey::Skill3,
        RawKey::Skill4 => VirtualKey::Skill4,
        RawKey::Dodge => VirtualKey::Dodge,
        RawKey::Jump => VirtualKey::Jump,
        RawKey::Guard => VirtualKey::Guard,
        RawKey::Interact => VirtualKey::Interact,
        RawKey::Lock => VirtualKey::Lock,
        RawKey::Aim => VirtualKey::Aim,
        RawKey::Shot1 => VirtualKey::Shot1,
        RawKey::Shot2 => VirtualKey::Shot2,
    }
}

/// Every device key stands for the logic key of the same name, and no
/// device key stands for the idle key.
pub proof fn lemma_virtual_key_names(k: RawKey)
    ensures
        spec_virtual_key(RawKey::Move) == VirtualKey::Move,
        spec_virtual_key(RawKey::View) == VirtualKey::View,
        spec_virtual_key(RawKey::Attack1) == VirtualKey::Attack1,
        spec_virtual_key(RawKey::Attack2) == VirtualKey::Attack2,
        spec_virtual_key(RawKey::Attack3) == VirtualKey::Attack3,
        spec_virtual_key(RawKey::Attack4) == VirtualKey::Attack4,
        spec_virtual_key(RawKey::Attack5) == VirtualKey::Attack5,
        spec_virtual_key(RawKey::Skill1) == VirtualKey::Skill1,
        spec_virtual_key(RawKey::Skill2) == VirtualKey::Skill2,
        spec_virtual_key(RawKey::Skill3) == VirtualKey::Skill3,
        spec_virtual_key(RawKey::Skill4) == VirtualKey::Skill4,
        spec_virtual_key(RawKey::Dodge) == VirtualKey::Dodge,
        spec_virtual_key(RawKey::Jump) == VirtualKey::Jump,
        spec_virtual_key(RawKey::Guard) == VirtualKey::Guard,
        spec_virtual_key(RawKey::Interact) == VirtualKey::Interact,
        spec_virtual_key(RawKey::Lock) == VirtualKey::Lock,
        spec_virtual_key(RawKey::Aim) == VirtualKey::Aim,
        spec_virtual_key(RawKey::Shot1) == VirtualKey::Shot1,
        spec_virtual_key(RawKey::Shot2) == VirtualKey::Shot2,
        spec_virtual_key(k) != VirtualKey::Idle,
{
}

impl RawKey {
    /// The logic key that this device key stands for.
    pub fn to_virtual(self) -> (r: VirtualKey)
        ensures
            r == spec_virtual_key(self),
    {
        match self {
            RawKey::Move => VirtualKey::Move,
            RawKey::View => VirtualKey::View,
            RawKey::Attack1 => VirtualKey::Attack1,
            RawKey::Attack2 => VirtualKey::Attack2,
            RawKey::Attack3 => VirtualKey::Attack3,
            RawKey::Attack4 => VirtualKey::Attack4,
            RawKey::Attack5 => VirtualKey::Attack5,
            RawKey::Skill1 => VirtualKey::Skill1,
            RawKey::Skill2 => VirtualKey::Skill2,
            RawKey::Skill3 => VirtualKey::Skill3,
            RawKey::Skill4 => VirtualKey::Skill4,
            RawKey::Dodge => VirtualKey::Dodge,
            RawKey::Jump => VirtualKey::Jump,
            RawKey::Guard => VirtualKey::Guard,
            RawKey::Interact => VirtualKey::Interact,
            RawKey::Lock => VirtualKey::Lock,
            RawKey::Aim => VirtualKey::Aim,
            RawKey::Shot1 => VirtualKey::Shot1,
            RawKey::Shot2 => VirtualKey::Shot2,
        }
    }
}

/// Whether a device key becomes a logic event; view and move keys only
/// change the input variables.
pub open spec fn is_button(k: RawKey) -> bool {
    k != RawKey::View && k != RawKey::Move
}

/// A device event, with `payload` the view and move directions in force when
/// it happened.
#[derive(Debug, Clone, Copy)]
pub struct KeyEvent<P> {
    pub key: RawKey,
    pub pressed: bool,
    pub payload: P,
}

/// A logic event, numbered in the order the queue received it.
#[derive(Debug, Clone, Copy)]
pub struct VirtualEvent<P> {
    pub id: u64,
    pub frame: u32,
    pub key: VirtualKey,
    pub pressed: bool,
    pub payload: P,
}

/// The range of event ids produced at one frame, and the input variables in
/// force at its end.
#[derive(Debug, Clone, Copy)]
pub struct InputFrameMeta<V> {
    pub frame: u32,
    pub start_event_id: u64,
    pub end_next_event_id: u64,
    pub variables: V,
}

/// How many of `keys` become logic events.
pub open spec fn button_count<P>(keys: Seq<KeyEvent<P>>) -> nat
    decreases keys.len(),
{
    if keys.len() == 0 {
        0
    } else {
        button_count(keys.drop_last()) + if is_button(keys.last().key) {
            1nat
        } else {
            0nat
        }
    }
}

/// The logic events that `keys`, received at `frame`, become when numbered
/// from `first_id`.
pub open spec fn virtual_events<P>(keys: Seq<KeyEvent<P>>, first_id: u64, frame: u32) -> Seq<
    VirtualEvent<P>,
>
    decreases keys.len(),
{
    if keys.len() == 0 {
        Seq::empty()
    } else {
        let prev = virtual_events(keys.drop_last(), first_id, frame);
        let k = keys.last();
        if is_button(k.key) {
            prev.push(
                VirtualEvent {
                    id: (first_id + button_count(keys.drop_last())) as u64,
                    frame,
                    key: spec_virtual_key(k.key),
                    pressed: k.pressed,
                    payload: k.payload,
                },
            )
        } else {
            prev
        }
    }
}

/// The logic events made from device events are numbered one after the
/// other from `first_id`, one per device event that is not a view or move
/// change, all at `frame`.
pub proof fn lemma_virtual_events<P>(keys: Seq<KeyEvent<P>>, first_id: u64, frame: u32)
    requires
        first_id + keys.len() <= u64::MAX,
    ensures
        button_count(keys) <= keys.len(),
        virtual_events(keys, first_id, frame).len() == button_count(keys),
        forall|j: int|
            0 <= j < button_count(keys) ==> #[trigger] virtual_events(keys, first_id, frame)[j].id
                == first_id + j && virtual_events(keys, first_id, frame)[j].frame == frame,
    decreases keys.len(),
{
    if keys.len() > 0 {
        lemma_virtual_events(keys.drop_last(), first_id, frame);
    }
}

/// The `j`-th logic event made from device events is the `j`-th of those
/// device events that is not a view or move change: it carries that event's
/// key under the same name, whether it was pressed, and its payload.
pub proof fn lemma_virtual_events_from_keys<P>(keys: Seq<KeyEvent<P>>, first_id: u64, frame: u32)
    ensures
        virtual_events(keys, first_id, frame).len() == button_count(keys),
        forall|j: int|
            0 <= j < button_count(keys) ==> exists|m: int|
                #![trigger keys[m]]
                {
                    &&& 0 <= m < keys.len()
                    &&& is_button(keys[m].key)
                    &&& button_count(keys.take(m)) == j
                    &&& (#[trigger] virtual_events(keys, first_id, frame)[j]).key == spec_virtual_key(keys[m].key)
                    &&& virtual_events(keys, first_id, frame)[j].pressed == keys[m].pressed
                    &&& virtual_events(keys, first_id, frame)[j].payload == keys[m].payload
                },
    decreases keys.len(),
{
    if keys.len() > 0 {
        let prev = keys.drop_last();
        lemma_virtual_events_from_keys(prev, first_id, frame);
        let ev = virtual_events(keys, first_id, frame);
        let pev = virtual_events(prev, first_id, frame);
        let n = keys.len() - 1;
        assert(keys.last() == keys[n]);
        assert forall|j: int| 0 <= j < button_count(keys) implies exists|m: int|
            #![trigger keys[m]]
            {
                &&& 0 <= m < keys.len()
                &&& is_button(keys[m].key)
                &&& button_count(keys.take(m)) == j
                &&& (#[trigger] ev[j]).key == spec_virtual_key(keys[m].key)
                &&& ev[j].pressed == keys[m].pressed
                &&& ev[j].payload == keys[m].payload
            } by {
            if j < button_count(prev) {
                assert(ev[j] == pev[j]);
                let m = choose|m: int|
                    #![trigger prev[m]]
                    {
                        &&& 0 <= m < prev.len()
                        &&& is_button(prev[m].key)
                        &&& button_count(prev.take(m)) == j
                        &&& (#[trigger] pev[j]).key == spec_virtual_key(prev[m].key)
                        &&& pev[j].pressed == prev[m].pressed
                        &&& pev[j].payload == prev[m].payload
                    };
                assert(prev.take(m) =~= keys.take(m));
                assert(prev[m] == keys[m]);
            } else {
                assert(keys.take(n) =~= prev);
                assert(is_button(keys[n].key));
            }
        }
    }
}

/// The references in `v` point at the events of `s`, in order.
pub open spec fn same_events<P>(v: Seq<&VirtualEvent<P>>, s: Seq<VirtualEvent<P>>) -> bool {
    &&& v.len() == s.len()
    &&& forall|i: int| 0 <= i < v.len() ==> *#[trigger] v[i] == s[i]
}

/// What a queue holds, as plain values.
#[verifier::ext_equal]
pub struct QueueView<V, P> {
    pub player_id: NumID,
    pub input_window: u32,
    pub future_id: u64,
    pub events: Seq<VirtualEvent<P>>,
    pub metas: Seq<InputFrameMeta<V>>,
    pub current_frame: u32,
    pub synced_frame: u32,
    pub base_frame: u32,
    pub base_id: u64,
    pub empty_variables: V,
}

impl<V, P> QueueView<V, P> {
    /// The queue after producing `keys` at `frame`, with `variables` in
    /// force at its end.
    pub open spec fn produced(self, frame: u32, keys: Seq<KeyEvent<P>>, variables: V) -> Self {
        let added = virtual_events(keys, self.future_id, frame);
        let end = (self.future_id + added.len()) as u64;
        QueueView {
            current_frame: frame,
            future_id: end,
            events: self.events + added,
            metas: self.metas.push(
                InputFrameMeta {
                    frame,
                    start_event_id: self.future_id,
                    end_next_event_id: end,
                    variables,
                },
            ),
            ..self
        }
    }

    /// The oldest frame kept once `synced` is confirmed: the input window
    /// before it, but never before the current base frame.
    pub open spec fn confirmed_base(self, synced: u32) -> u32 {
        let w = if synced >= self.input_window {
            (synced - self.input_window) as u32
        } else {
            0u32
        };
        if w > self.base_frame {
            w
        } else {
            self.base_frame
        }
    }

    /// The queue after confirming `synced`, which is at most its current
    /// frame: the records and events of the frames before the new base
    /// frame are dropped.
    pub open spec fn confirmed(self, synced: u32) -> Self {
        if synced <= self.synced_frame {
            self
        } else {
            let nb = self.confirmed_base(synced);
            if nb <= self.base_frame {
                QueueView { synced_frame: synced, ..self }
            } else {
                let k = nb - self.base_frame;
                let new_base_id = self.metas[k].start_event_id;
                QueueView {
                    synced_frame: synced,
                    base_frame: nb,
                    metas: self.metas.skip(k),
                    base_id: new_base_id,
                    events: self.events.skip(new_base_id - self.base_id),
                    ..self
                }
            }
        }
    }
}

/// The events of one player, in the order they arrived, with the view and
/// move variables of each frame kept beside them.
pub struct InputEventQueue<V, P> {
    player_id: NumID,
    input_window: u32,
    id_counter: u64,
    events: VecDeque<VirtualEvent<P>>,
    metas: VecDeque<InputFrameMeta<V>>,
    current_frame: u32,
    synced_frame: u32,
    base_frame: u32,
    base_id: u64,
    empty_variables: V,
}

impl<V: Copy, P: Copy> InputEventQueue<V, P> {
    pub closed spec fn spec_player_id(&self) -> NumID {
        self.player_id
    }

    pub closed spec fn spec_input_window(&self) -> u32 {
        self.input_window
    }

    /// The id the next event will get.
    pub closed spec fn spec_future_id(&self) -> u64 {
        self.id_counter
    }

    /// The kept events, oldest first.
    pub closed spec fn spec_events(&self) -> Seq<VirtualEvent<P>> {
        self.events@
    }

    /// The kept frame records, oldest first.
    pub closed spec fn spec_metas(&self) -> Seq<InputFrameMeta<V>> {
        self.metas@
    }

    pub closed spec fn spec_current_frame(&self) -> u32 {
        self.current_frame
    }

    pub closed spec fn spec_synced_frame(&self) -> u32 {
        self.synced_frame
    }

    /// The oldest frame still kept.
    pub closed spec fn spec_base_frame(&self) -> u32 {
        self.base_frame
    }

    /// The id of the oldest event still kept.
    pub closed spec fn spec_base_id(&self) -> u64 {
        self.base_id
    }

    /// The variables reported when no frame has been produced.
    pub closed spec fn spec_empty_variables(&self) -> V {
        self.empty_variables
    }

    /// What the queue holds.
    pub open spec fn qview(&self) -> QueueView<V, P> {
        QueueView {
            player_id: self.spec_player_id(),
            input_window: self.spec_input_window(),
            future_id: self.spec_future_id(),
            events: self.spec_events(),
            metas: self.spec_metas(),
            current_frame: self.spec_current_frame(),
            synced_frame: self.spec_synced_frame(),
            base_frame: self.spec_base_frame(),
            base_id: self.spec_base_id(),
            empty_variables: self.spec_empty_variables(),
        }
    }

    /// The record of `frame`, when it is kept.
    pub open spec fn meta_at(&self, frame: u32) -> Option<InputFrameMeta<V>> {
        if self.spec_base_frame() <= frame && frame - self.spec_base_frame()
            < self.spec_metas().len() {
            Some(self.spec_metas()[frame - self.spec_base_frame()])
        } else {
            None
        }
    }

    /// The record of the newest frame, or that of no frame when none is kept.
    pub open spec fn last_meta(&self) -> InputFrameMeta<V> {
        if self.spec_metas().len() > 0 {
            self.spec_metas().last()
        } else {
            InputFrameMeta {
                frame: 0,
                start_event_id: FIRST_EVENT_ID,
                end_next_event_id: FIRST_EVENT_ID,
                variables: self.spec_empty_variables(),
            }
        }
    }

    /// The kept events whose ids lie in `[start_id, end_id)`.
    pub open spec fn events_between(&self, start_id: int, end_id: int) -> Seq<VirtualEvent<P>> {
        self.spec_events().subrange(start_id - self.spec_base_id(), end_id - self.spec_base_id())
    }

    /// The queue keeps one record per frame from the base frame to the
    /// current frame, the records split the kept event ids into consecutive
    /// ranges, the events are numbered consecutively from the base id, and
    /// every event lies in the range of its own frame.
    pub closed spec fn wf(&self) -> bool {
        let m = self.metas@;
        let ev = self.events@;
        &&& 1 <= self.base_frame <= self.current_frame + 1
        &&& m.len() == self.current_frame + 1 - self.base_frame
        &&& self.synced_frame <= self.current_frame
        &&& FIRST_EVENT_ID <= self.base_id <= self.id_counter
        &&& ev.len() == self.id_counter - self.base_id
        &&& forall|i: int| 0 <= i < m.len() ==> #[trigger] m[i].frame == self.base_frame + i
        &&& forall|i: int|
            0 <= i < m.len() ==> #[trigger] m[i].start_event_id <= m[i].end_next_event_id
        &&& forall|i: int|
            0 <= i < m.len() - 1 ==> #[trigger] m[i].end_next_event_id == m[i + 1].start_event_id
        &&& m.len() > 0 ==> m[0].start_event_id == self.base_id && m.last().end_next_event_id
            == self.id_counter
        &&& m.len() == 0 ==> self.base_id == FIRST_EVENT_ID && self.id_counter == FIRST_EVENT_ID
        &&& forall|j: int| 0 <= j < ev.len() ==> #[trigger] ev[j].id == self.base_id + j
        &&& forall|i: int, j: int|
            #![trigger m[i], ev[j]]
            0 <= i < m.len() && 0 <= j < ev.len() && m[i].start_event_id <= ev[j].id
                < m[i].end_next_event_id ==> ev[j].frame == m[i].frame
    }

    pub fn new(player_id: NumID, input_window: u32, empty_variables: V) -> (r: Self)
        ensures
            r.wf(),
            r.spec_player_id() == player_id,
            r.spec_input_window() == input_window,
            r.spec_future_id() == FIRST_EVENT_ID,
            r.spec_events().len() == 0,
            r.spec_metas().len() == 0,
            r.spec_current_frame() == 0,
            r.spec_synced_frame() == 0,
            r.spec_base_frame() == 1,
            r.spec_base_id() == FIRST_EVENT_ID,
            r.spec_empty_variables() == empty_variables,
    {
        InputEventQueue {
            player_id,
            input_window,
            id_counter: FIRST_EVENT_ID,
            events: VecDeque::with_capacity(256),
            metas: VecDeque::new(),
            current_frame: 0,
            synced_frame: 0,
            base_frame: 1,
            base_id: FIRST_EVENT_ID,
            empty_variables,
        }
    }

    pub fn player_id(&self) -> (r: NumID)
        ensures
            r == self.spec_player_id(),
    {
        self.player_id
    }

    /// The id the next event will get.
    pub fn future_id(&self) -> (r: u64)
        ensures
            r == self.spec_future_id(),
    {
        self.id_counter
    }

    /// The latest frame produced.
    pub fn current_frame(&self) -> (r: u32)
        ensures
            r == self.spec_current_frame(),
    {
        self.current_frame
    }

    /// The frame up to which all players are synchronized.
    pub fn synced_frame(&self) -> (r: u32)
        ensures
            r == self.spec_synced_frame(),
    {
        self.synced_frame
    }

    /// The first frame that is not synchronized.
    pub fn unsynced_frame(&self) -> (r: u32)
        requires
            self.spec_synced_frame() < u32::MAX,
        ensures
            r == self.spec_synced_frame() + 1,
    {
        self.synced_frame + 1
    }

    /// The oldest frame still kept.
    pub fn base_frame(&self) -> (r: u32)
        ensures
            r == self.spec_base_frame(),
    {
        self.base_frame
    }

    /// The kept frame records, oldest first.
    pub fn metas(&self) -> (r: &VecDeque<InputFrameMeta<V>>)
        ensures
            r@ == self.spec_metas(),
    {
        &self.metas
    }

    /// The id of the oldest event still kept.
    pub fn base_id(&self) -> (r: u64)
        ensures
            r == self.spec_base_id(),
    {
        self.base_id
    }

    /// Takes the device events of the frame after the current one: every
    /// event but view and move changes becomes a numbered logic event of that
    /// frame, and the frame's record keeps `variables`, the input variables
    /// in force at its end.
    pub fn produce(&mut self, current_frame: u32, events: &[KeyEvent<P>], variables: V) -> (r: XResult<()>)
        requires
            old(self).wf(),
            old(self).spec_current_frame() < u32::MAX,
            old(self).spec_future_id() + events@.len() <= u64::MAX,
        ensures
            final(self).wf(),
            r is Ok <==> current_frame == old(self).spec_current_frame() + 1,
            r matches Err(e) ==> e == XError::BadArgument && *final(self) == *old(self),
            r is Ok ==> final(self).qview() == old(self).qview().produced(
                current_frame,
                events@,
                variables,
            ),
            r is Ok ==> {
                let added = virtual_events(events@, old(self).spec_future_id(), current_frame);
                &&& final(self).spec_current_frame() == current_frame
                &&& final(self).spec_future_id() == old(self).spec_future_id() + added.len()
                &&& final(self).spec_events() == old(self).spec_events() + added
                &&& final(self).spec_metas() == old(self).spec_metas().push(
                    InputFrameMeta {
                        frame: current_frame,
                        start_event_id: old(self).spec_future_id(),
                        end_next_event_id: final(self).spec_future_id(),
                        variables,
                    },
                )
                &&& final(self).spec_synced_frame() == old(self).spec_synced_frame()
                &&& final(self).spec_base_frame() == old(self).spec_base_frame()
                &&& final(self).spec_base_id() == old(self).spec_base_id()
                &&& final(self).spec_player_id() == old(self).spec_player_id()
                &&& final(self).spec_input_window() == old(self).spec_input_window()
                &&& final(self).spec_empty_variables() == old(self).spec_empty_variables()
            },
    {
        if current_frame != self.current_frame + 1 {
            return Err(XError::BadArgument);
        }
        let ghost old_events = self.events@;
        let ghost first = self.id_counter;
        proof {
            lemma_virtual_events(events@, first, current_frame);
        }
        self.current_frame = self.current_frame + 1;
        let start_event_id = self.id_counter;
        let mut n: usize = 0;
        while n < events.len()
            invariant
                n <= events@.len(),
                first + events@.len() <= u64::MAX,
                self.id_counter == first + button_count(events@.take(n as int)),
                self.events@ == old_events + virtual_events(events@.take(n as int), first, current_frame),
                button_count(events@.take(n as int)) <= n,
                self.metas@ == old(self).metas@,
                self.base_id == old(self).base_id,
                self.base_frame == old(self).base_frame,
                self.synced_frame == old(self).synced_frame,
                self.current_frame == current_frame,
                self.player_id == old(self).player_id,
                self.input_window == old(self).input_window,
                self.empty_variables == old(self).empty_variables,
            decreases events@.len() - n,
        {
            let ghost prefix = events@.take(n as int);
            proof {
                assert(events@.take(n + 1).drop_last() =~= prefix);
                lemma_virtual_events(prefix, first, current_frame);
            }
            let event = events[n];
            if event.key != RawKey::View && event.key != RawKey::Move {
                let v = VirtualEvent {
                    id: self.id_counter,
                    frame: current_frame,
                    key: event.key.to_virtual(),
                    pressed: event.pressed,
                    payload: event.payload,
                };
                self.events.push_back(v);
                self.id_counter = self.id_counter + 1;
            }
            n = n + 1;
        }
        proof {
            assert(events@.take(events@.len() as int) =~= events@);
        }
        self.metas.push_back(
            InputFrameMeta {
                frame: current_frame,
                start_event_id,
                end_next_event_id: self.id_counter,
                variables,
            },
        );
        proof {
            let m = self.metas@;
            let ev = self.events@;
            let added = virtual_events(events@, first, current_frame);
            let om = old(self).metas@;
            assert(ev == old_events + added);
            assert forall|j: int| 0 <= j < ev.len() implies #[trigger] ev[j].id == self.base_id + j by {
                if j >= old_events.len() {
                    assert(ev[j] == added[j - old_events.len()]);
                } else {
                    assert(ev[j] == old_events[j]);
                }
            }
            assert forall|i: int, j: int|
                #![trigger m[i], ev[j]]
                0 <= i < m.len() && 0 <= j < ev.len() && m[i].start_event_id <= ev[j].id
                    < m[i].end_next_event_id implies ev[j].frame == m[i].frame by {
                if i < m.len() - 1 {
                    assert(m[i] == om[i]);
                    self.lemma_ends_ordered(*old(self), i);
                    if j >= old_events.len() {
                        assert(ev[j] == added[j - old_events.len()]);
                    } else {
                        assert(ev[j] == old_events[j]);
                    }
                } else {
                    if j >= old_events.len() {
                        assert(ev[j] == added[j - old_events.len()]);
                    } else {
                        assert(ev[j] == old_events[j]);
                    }
                }
            }
            assert forall|i: int| 0 <= i < m.len() - 1 implies #[trigger] m[i].end_next_event_id
                == m[i + 1].start_event_id by {
                if i < m.len() - 2 {
                    assert(m[i] == om[i] && m[i + 1] == om[i + 1]);
                } else {
                    assert(m[i] == om[i]);
                }
            }
            assert forall|i: int| 0 <= i < m.len() implies #[trigger] m[i].frame == self.base_frame + i
                && m[i].start_event_id <= m[i].end_next_event_id by {
                if i < m.len() - 1 {
                    assert(m[i] == om[i]);
                }
            }
        }
        Ok(())
    }

    /// The oldest frame a queue keeps once `synced` is confirmed: the input
    /// window before it, but never before the current base frame.
    pub open spec fn confirmed_base(&self, synced: u32) -> u32 {
        let w = if synced >= self.spec_input_window() {
            (synced - self.spec_input_window()) as u32
        } else {
            0u32
        };
        if w > self.spec_base_frame() {
            w
        } else {
            self.spec_base_frame()
        }
    }

    /// Marks the frames up to `synced_frame` as synchronized and drops the
    /// records and events of the frames that fell out of the input window.
    #[verifier::rlimit(60)]
    pub fn confirm(&mut self, synced_frame: u32) -> (r: XResult<()>)
        requires
            old(self).wf(),
        ensures
            final(self).wf(),
            r is Err <==> synced_frame > old(self).spec_current_frame(),
            r matches Err(e) ==> e == XError::BadArgument,
            r is Err || synced_frame <= old(self).spec_synced_frame() ==> *final(self) == *old(self),
            r is Ok ==> final(self).qview() == old(self).qview().confirmed(synced_frame),
            r is Ok && synced_frame > old(self).spec_synced_frame() ==> {
                let nb = old(self).confirmed_base(synced_frame);
                &&& final(self).spec_synced_frame() == synced_frame
                &&& final(self).spec_current_frame() == old(self).spec_current_frame()
                &&& final(self).spec_future_id() == old(self).spec_future_id()
                &&& final(self).spec_player_id() == old(self).spec_player_id()
                &&& final(self).spec_input_window() == old(self).spec_input_window()
                &&& final(self).spec_empty_variables() == old(self).spec_empty_variables()
                &&& final(self).spec_base_frame() == nb
                &&& nb == old(self).spec_base_frame() ==> {
                    &&& final(self).spec_metas() == old(self).spec_metas()
                    &&& final(self).spec_events() == old(self).spec_events()
                    &&& final(self).spec_base_id() == old(self).spec_base_id()
                }
                &&& nb > old(self).spec_base_frame() ==> {
                    let k = nb - old(self).spec_base_frame();
                    let new_base_id = old(self).spec_metas()[k].start_event_id;
                    &&& final(self).spec_metas() == old(self).spec_metas().skip(k)
                    &&& final(self).spec_base_id() == new_base_id
                    &&& final(self).spec_events() == old(self).spec_events().skip(
                        new_base_id - old(self).spec_base_id(),
                    )
                }
            },
    {
        if synced_frame > self.current_frame {
            return Err(XError::BadArgument);
        }
        if synced_frame <= self.synced_frame {
            return Ok(());
        }
        self.synced_frame = synced_frame;
        let window_start: u32 = if synced_frame >= self.input_window {
            synced_frame - self.input_window
        } else {
            0
        };
        let base_frame: u32 = if window_start > self.base_frame {
            window_start
        } else {
            self.base_frame
        };
        if base_frame <= self.base_frame {
            return Ok(());
        }
        let ghost m0 = self.metas@;
        let ghost e0 = self.events@;
        let ghost q0 = *self;
        let mut frame = self.base_frame;
        while frame < base_frame
            invariant
                self.base_frame <= frame <= base_frame <= self.current_frame,
                self.metas@ == m0.skip(frame - self.base_frame),
                m0.len() == self.current_frame + 1 - self.base_frame,
                self.events@ == e0,
                q0.wf(),
                q0.metas@ == m0,
                q0.events@ == e0,
                self.base_id == q0.base_id,
                self.base_frame == q0.base_frame,
                self.id_counter == q0.id_counter,
                self.current_frame == q0.current_frame,
                self.synced_frame == q0.synced_frame,
                self.player_id == q0.player_id,
                self.input_window == q0.input_window,
                self.empty_variables == q0.empty_variables,
            decreases base_frame - frame,
        {
            let ghost before = self.metas@;
            let _ = self.metas.pop_front();
            proof {
                assert(self.metas@ =~= m0.skip(frame + 1 - self.base_frame));
            }
            frame = frame + 1;
        }
        if self.metas.len() == 0 {
            return Err(XError::Unexpected);
        }
        let new_base_id = self.metas[0].start_event_id;
        let ghost k = (base_frame - self.base_frame) as int;
        proof {
            assert(new_base_id == m0[k].start_event_id);
            q0.lemma_ends_ordered(q0, k);
            q0.lemma_starts_ordered(q0, k);
        }
        let ghost d = (new_base_id - self.base_id) as int;
        while self.events.len() > 0 && self.events[0].id < new_base_id
            invariant
                0 <= d <= e0.len(),
                self.events@.len() >= e0.len() - d,
                self.events@.len() <= e0.len(),
                self.events@ == e0.skip(e0.len() - self.events@.len()),
                d == new_base_id - self.base_id,
                forall|j: int| 0 <= j < e0.len() ==> #[trigger] e0[j].id == self.base_id + j,
                self.metas@ == m0.skip(k),
                0 <= k < m0.len(),
                new_base_id == m0[k].start_event_id,
                q0.wf(),
                q0.metas@ == m0,
                q0.events@ == e0,
                self.base_id == q0.base_id,
                self.base_frame == q0.base_frame,
                self.id_counter == q0.id_counter,
                self.current_frame == q0.current_frame,
                self.synced_frame == q0.synced_frame,
                self.player_id == q0.player_id,
                self.input_window == q0.input_window,
                self.empty_variables == q0.empty_variables,
            decreases self.events@.len(),
        {
            let ghost before = self.events@;
            proof {
                let x = e0.len() - before.len();
                assert(before[0] == e0.skip(x)[0]);
                assert(before[0] == e0[x]);
            }
            let _ = self.events.pop_front();
            proof {
                let x = e0.len() - before.len();
                assert(self.events@ == before.subrange(1, before.len() as int));
                assert(self.events@ =~= e0.skip(x + 1));
            }
        }
        proof {
            let x = e0.len() - self.events@.len();
            if self.events@.len() > e0.len() - d {
                assert(self.events@[0] == e0.skip(x)[0]);
                assert(self.events@[0] == e0[x]);
            }
            assert(x == d);
            assert(self.events@ == e0.skip(d));
        }
        self.base_frame = base_frame;
        self.base_id = new_base_id;
        proof {
            let m = self.metas@;
            let ev = self.events@;
            assert forall|i: int| 0 <= i < m.len() implies #[trigger] m[i].frame == self.base_frame + i
                && m[i].start_event_id <= m[i].end_next_event_id by {
                assert(m[i] == m0[k + i]);
            }
            assert forall|i: int| 0 <= i < m.len() - 1 implies #[trigger] m[i].end_next_event_id
                == m[i + 1].start_event_id by {
                assert(m[i] == m0[k + i] && m[i + 1] == m0[k + i + 1]);
            }
            assert forall|j: int| 0 <= j < ev.len() implies #[trigger] ev[j].id == self.base_id + j by {
                assert(ev[j] == e0[d + j]);
            }
            assert forall|i: int, j: int|
                #![trigger m[i], ev[j]]
                0 <= i < m.len() && 0 <= j < ev.len() && m[i].start_event_id <= ev[j].id
                    < m[i].end_next_event_id implies ev[j].frame == m[i].frame by {
                assert(m[i] == m0[k + i]);
                assert(ev[j] == e0[d + j]);
            }
            assert(m.last() == m0.last());
        }
        Ok(())
    }

    /// The frame `frame - input_window`, wrapping below zero as `u32` does.
    pub open spec fn window_start_frame(&self, frame: u32) -> u32 {
        if frame >= self.spec_input_window() {
            (frame - self.spec_input_window()) as u32
        } else {
            (frame - self.spec_input_window() + 0x1_0000_0000) as u32
        }
    }

    /// The ids `[start, end)` of the events that count as pre-input at
    /// `frame` for a reader that has consumed every event before `cursor_id`;
    /// `None` when the input window lies wholly after the kept frames.
    pub open spec fn preinput_range(&self, frame: u32, cursor_id: u64) -> Option<(int, int)> {
        let end_id: int = if frame > self.spec_current_frame() {
            self.last_meta().end_next_event_id as int
        } else {
            self.meta_at(frame).unwrap().start_event_id as int
        };
        let cand: Option<int> = match self.meta_at(self.window_start_frame(frame)) {
            Some(w) => Some(w.start_event_id as int),
            None => if frame < self.spec_base_frame() + self.spec_input_window() {
                Some(
                    if self.spec_metas().len() > 0 {
                        self.spec_metas()[0].start_event_id as int
                    } else {
                        FIRST_EVENT_ID as int
                    },
                )
            } else {
                None
            },
        };
        match cand {
            None => None,
            Some(c) => {
                let lo = if c > cursor_id { c } else { cursor_id as int };
                let st = if lo < end_id { lo } else { end_id };
                Some((st, end_id))
            },
        }
    }

    /// The record of `frame`, when it is kept.
    fn index_meta(&self, frame: u32) -> (r: Option<&InputFrameMeta<V>>)
        ensures
            r matches Some(m) ==> self.meta_at(frame) == Some(*m),
            r is None ==> self.meta_at(frame) is None,
    {
        if frame < self.base_frame {
            return None;
        }
        let idx = (frame - self.base_frame) as usize;
        if idx < self.metas.len() {
            Some(&self.metas[idx])
        } else {
            None
        }
    }

    /// The kept events with ids in `[start_id, end_id)`.
    fn events_range(&self, start_id: u64, end_id: u64) -> (r: Vec<&VirtualEvent<P>>)
        requires
            self.wf(),
            self.spec_base_id() <= start_id <= end_id <= self.spec_future_id(),
        ensures
            same_events(r@, self.events_between(start_id as int, end_id as int)),
    {
        let len = self.events.len();
        let start = (start_id - self.base_id) as usize;
        let end = (end_id - self.base_id) as usize;
        let mut out: Vec<&VirtualEvent<P>> = Vec::new();
        let mut pos = start;
        while pos < end
            invariant
                start <= pos <= end <= self.events@.len(),
                out@.len() == pos - start,
                forall|i: int| 0 <= i < out@.len() ==> *#[trigger] out@[i] == self.events@[start + i],
            decreases end - pos,
        {
            out.push(&self.events[pos]);
            pos = pos + 1;
        }
        out
    }

    proof fn lemma_meta_ids(&self, i: int)
        requires
            self.wf(),
            0 <= i < self.spec_metas().len(),
        ensures
            self.spec_base_id() <= self.spec_metas()[i].start_event_id
                <= self.spec_metas()[i].end_next_event_id <= self.spec_future_id(),
    {
        self.lemma_ends_ordered(*self, i);
        self.lemma_starts_ordered(*self, i);
    }

    /// The events produced at `frame`: none for a frame not yet produced,
    /// `Overflow` for a frame no longer kept.
    pub fn iter_current(&self, frame: u32) -> (r: XResult<Vec<&VirtualEvent<P>>>)
        requires
            self.wf(),
        ensures
            frame > self.spec_current_frame() ==> (r matches Ok(v) && v@.len() == 0),
            frame <= self.spec_current_frame() ==> match self.meta_at(frame) {
                None => r == Err::<Vec<&VirtualEvent<P>>, XError>(XError::Overflow),
                Some(m) => (r matches Ok(v) && same_events(
                    v@,
                    self.events_between(m.start_event_id as int, m.end_next_event_id as int),
                )),
            },
    {
        if frame > self.current_frame {
            return Ok(Vec::new());
        }
        match self.index_meta(frame) {
            None => Err(XError::Overflow),
            Some(meta) => {
                proof {
                    self.lemma_meta_ids(frame - self.base_frame);
                }
                Ok(self.events_range(meta.start_event_id, meta.end_next_event_id))
            },
        }
    }

    /// The events that count as pre-input at `frame`: those of the input
    /// window before it (or, for a frame not yet produced, up to the newest
    /// event), leaving out the events before `cursor_id`.
    pub fn iter_preinput(&self, frame: u32, cursor_id: u64) -> (r: XResult<Vec<&VirtualEvent<P>>>)
        requires
            self.wf(),
            cursor_id <= self.spec_future_id() && (frame > self.spec_current_frame()
                || self.meta_at(frame) is Some) && self.meta_at(self.window_start_frame(frame)) is None
                ==> self.spec_base_frame() + self.spec_input_window() <= u32::MAX,
        ensures
            cursor_id > self.spec_future_id() ==> r == Err::<Vec<&VirtualEvent<P>>, XError>(
                XError::BadArgument,
            ),
            cursor_id <= self.spec_future_id() && frame <= self.spec_current_frame() && self.meta_at(
                frame,
            ) is None ==> r == Err::<Vec<&VirtualEvent<P>>, XError>(XError::Overflow),
            cursor_id <= self.spec_future_id() && (frame > self.spec_current_frame()
                || self.meta_at(frame) is Some) ==> match self.preinput_range(frame, cursor_id) {
                None => (r matches Ok(v) && v@.len() == 0),
                Some((st, en)) => (r matches Ok(v) && same_events(v@, self.events_between(st, en))),
            },
    {
        if cursor_id > self.id_counter {
            return Err(XError::BadArgument);
        }
        let end_id: u64;
        if frame > self.current_frame {
            let n = self.metas.len();
            end_id = if n > 0 {
                self.metas[n - 1].end_next_event_id
            } else {
                FIRST_EVENT_ID
            };
            proof {
                if n > 0 {
                    self.lemma_meta_ids(n - 1);
                }
            }
        } else {
            match self.index_meta(frame) {
                None => {
                    return Err(XError::Overflow);
                },
                Some(meta) => {
                    proof {
                        self.lemma_meta_ids(frame - self.base_frame);
                    }
                    end_id = meta.start_event_id;
                },
            }
        }
        let window_frame: u32 = if frame >= self.input_window {
            frame - self.input_window
        } else {
            ((frame as u64 + 0x1_0000_0000u64) - self.input_window as u64) as u32
        };
        let start_cand: u64;
        match self.index_meta(window_frame) {
            Some(w) => {
                proof {
                    self.lemma_meta_ids(window_frame - self.base_frame);
                }
                start_cand = w.start_event_id;
            },
            None => {
                if frame < self.base_frame + self.input_window {
                    start_cand = if self.metas.len() > 0 {
                        self.metas[0].start_event_id
                    } else {
                        FIRST_EVENT_ID
                    };
                } else {
                    return Ok(Vec::new());
                }
            },
        }
        let lo = if start_cand > cursor_id {
            start_cand
        } else {
            cursor_id
        };
        let start_id = if lo < end_id {
            lo
        } else {
            end_id
        };
        Ok(self.events_range(start_id, end_id))
    }

    /// The input variables in force at the end of `frame`; a frame not yet
    /// produced sees those of the newest frame.
    pub fn variables(&self, frame: u32) -> (r: XResult<V>)
        requires
            self.wf(),
        ensures
            frame > self.spec_current_frame() ==> r == Ok::<V, XError>(self.last_meta().variables),
            frame <= self.spec_current_frame() ==> match self.meta_at(frame) {
                None => r == Err::<V, XError>(XError::Overflow),
                Some(m) => r == Ok::<V, XError>(m.variables),
            },
    {
        if frame > self.current_frame {
            let n = self.metas.len();
            if n > 0 {
                return Ok(self.metas[n - 1].variables);
            } else {
                return Ok(self.empty_variables);
            }
        }
        match self.index_meta(frame) {
            None => Err(XError::Overflow),
            Some(m) => Ok(m.variables),
        }
    }

    /// After a frame is produced, the record kept for it spans exactly the
    /// logic events made from its device events, so reading that frame gives
    /// them back, with the variables handed in.
    pub proof fn lemma_produce_then_read(
        before: Self,
        after: Self,
        frame: u32,
        keys: Seq<KeyEvent<P>>,
        variables: V,
    )
        requires
            before.wf(),
            after.wf(),
            frame == before.spec_current_frame() + 1,
            before.spec_future_id() + keys.len() <= u64::MAX,
            after.qview() == before.qview().produced(frame, keys, variables),
        ensures
            after.meta_at(frame) matches Some(m) && m.variables == variables
                && after.events_between(m.start_event_id as int, m.end_next_event_id as int)
                == virtual_events(keys, before.spec_future_id(), frame),
    {
        let added = virtual_events(keys, before.spec_future_id(), frame);
        lemma_virtual_events(keys, before.spec_future_id(), frame);
        let m = after.spec_metas().last();
        assert(after.spec_metas().len() == before.spec_metas().len() + 1);
        assert(after.meta_at(frame) == Some(m));
        assert(after.events_between(m.start_event_id as int, m.end_next_event_id as int) =~= added);
    }

    /// Every event in the range recorded for a kept frame was produced at
    /// that frame, and the kept events are numbered consecutively from the
    /// base id.
    pub proof fn lemma_events_of_frame(q: Self, frame: u32)
        requires
            q.wf(),
        ensures
            forall|j: int|
                0 <= j < q.spec_events().len() ==> #[trigger] q.spec_events()[j].id == q.spec_base_id() + j,
            q.spec_base_id() + q.spec_events().len() == q.spec_future_id(),
            q.meta_at(frame) matches Some(m) ==> forall|k: int|
                0 <= k < q.events_between(m.start_event_id as int, m.end_next_event_id as int).len()
                    ==> (#[trigger] q.events_between(
                    m.start_event_id as int,
                    m.end_next_event_id as int,
                )[k]).frame == frame,
    {
        if let Some(m) = q.meta_at(frame) {
            let i = frame - q.spec_base_frame();
            q.lemma_meta_ids(i);
            let evs = q.events_between(m.start_event_id as int, m.end_next_event_id as int);
            assert forall|k: int| 0 <= k < evs.len() implies (#[trigger] evs[k]).frame == frame by {
                let j = m.start_event_id - q.spec_base_id() + k;
                assert(evs[k] == q.events@[j]);
                assert(q.metas@[i] == m);
            }
        }
    }

    /// Confirming a frame never changes what the frames after it read: the
    /// record of each such frame, its events, the newest record, and the
    /// pre-input events of any reader stay as they were.
    #[verifier::rlimit(30)]
    pub proof fn lemma_confirm_keeps_later_reads(
        before: Self,
        after: Self,
        synced: u32,
        frame: u32,
        cursor_id: u64,
    )
        requires
            before.wf(),
            after.wf(),
            synced <= before.spec_current_frame(),
            after.qview() == before.qview().confirmed(synced),
            synced < frame,
        ensures
            after.meta_at(frame) == before.meta_at(frame),
            after.last_meta() == before.last_meta(),
            before.meta_at(frame) matches Some(m) ==> after.events_between(
                m.start_event_id as int,
                m.end_next_event_id as int,
            ) == before.events_between(m.start_event_id as int, m.end_next_event_id as int),
            after.preinput_range(frame, cursor_id) == before.preinput_range(frame, cursor_id),
            cursor_id <= before.spec_future_id() ==> (before.preinput_range(frame, cursor_id) matches Some(
                (st, en),
            ) ==> after.events_between(st, en) == before.events_between(st, en)),
    {
        let v0 = before.qview();
        let nb = v0.confirmed_base(synced);
        if synced <= v0.synced_frame || nb <= v0.base_frame {
            assert(after.spec_metas() == before.spec_metas());
            assert(after.spec_events() == before.spec_events());
            assert(after.spec_base_frame() == before.spec_base_frame());
            assert(after.spec_base_id() == before.spec_base_id());
            assert(after.spec_current_frame() == before.spec_current_frame());
            assert(after.spec_input_window() == before.spec_input_window());
            assert(after.spec_empty_variables() == before.spec_empty_variables());
            if let Some((st, en)) = before.preinput_range(frame, cursor_id) {
                assert(after.events_between(st, en) == before.events_between(st, en));
            }
        } else {
            let k = nb - v0.base_frame;
            let m0 = before.spec_metas();
            let nbid = m0[k].start_event_id;
            let d = nbid - before.spec_base_id();
            before.lemma_meta_ids(k);
            assert(after.spec_base_frame() == nb);
            assert(after.spec_metas() == m0.skip(k));
            assert(after.spec_base_id() == nbid);
            assert(after.spec_events() == before.spec_events().skip(d));
            assert(after.spec_current_frame() == before.spec_current_frame());
            assert(after.spec_future_id() == before.spec_future_id());
            assert(after.spec_input_window() == before.spec_input_window());
            assert(after.spec_metas().len() > 0);
            // Every record kept starts at or after the new base id.
            assert forall|j: int| 0 <= j < after.spec_metas().len() implies nbid
                <= #[trigger] after.spec_metas()[j].start_event_id && after.spec_metas()[j].end_next_event_id
                <= after.spec_future_id() by {
                after.lemma_meta_ids(j);
            }
            // Records of the frames from the new base frame on stay.
            assert forall|f: u32| f >= nb implies #[trigger] after.meta_at(f) == before.meta_at(f) by {
                if before.meta_at(f) is Some {
                    assert(after.spec_metas()[f - nb] == m0[f - v0.base_frame]);
                }
            }
            // Events with ids from the new base id on stay.
            assert forall|a: int, b: int|
                nbid <= a <= b <= before.spec_future_id() implies #[trigger] after.events_between(a, b)
                == before.events_between(a, b) by {
                assert(after.events_between(a, b) =~= before.events_between(a, b));
            }
            assert(after.last_meta() == before.last_meta()) by {
                assert(after.spec_metas().last() == m0.last());
            }
            assert(after.meta_at(frame) == before.meta_at(frame));
            if let Some(m) = before.meta_at(frame) {
                assert(after.spec_metas()[frame - nb] == m);
                assert(after.events_between(m.start_event_id as int, m.end_next_event_id as int)
                    == before.events_between(m.start_event_id as int, m.end_next_event_id as int));
            }
            let ws = before.window_start_frame(frame);
            assert(ws == after.window_start_frame(frame));
            assert(ws > nb);
            assert(after.meta_at(ws) == before.meta_at(ws));
            if frame <= before.spec_current_frame() {
                assert(after.meta_at(frame) is Some);
            }
            assert(after.preinput_range(frame, cursor_id) == before.preinput_range(frame, cursor_id));
            if let Some((st, en)) = before.preinput_range(frame, cursor_id) {
                let m_last = after.spec_metas().last();
                assert(after.spec_metas()[after.spec_metas().len() - 1] == m_last);
                if let Some(w) = after.meta_at(ws) {
                    assert(after.spec_metas()[ws - nb] == w);
                }
                if frame <= before.spec_current_frame() {
                    assert(after.spec_metas()[frame - nb] == after.meta_at(frame).unwrap());
                }
                assert(nbid <= st <= en <= before.spec_future_id());
            }
        }
    }

    /// An earlier record's ids end where a later record's begin, or before.
    proof fn lemma_meta_order(q: Self, i: int, j: int)
        requires
            q.wf(),
            0 <= i < j < q.metas@.len(),
        ensures
            q.metas@[i].end_next_event_id <= q.metas@[j].start_event_id,
        decreases j - i,
    {
        if j == i + 1 {
            assert(q.metas@[i].end_next_event_id == q.metas@[i + 1].start_event_id);
        } else {
            Self::lemma_meta_order(q, i, j - 1);
            assert(q.metas@[j - 1].start_event_id <= q.metas@[j - 1].end_next_event_id);
            assert(q.metas@[j - 1].end_next_event_id == q.metas@[j].start_event_id);
        }
    }

    /// A kept id at or after the start of record `i` lies in the range of
    /// record `i` or of a later one.
    proof fn lemma_id_in_meta(q: Self, id: int, i: int) -> (k: int)
        requires
            q.wf(),
            0 <= i < q.metas@.len(),
            q.metas@[i].start_event_id <= id < q.id_counter,
        ensures
            i <= k < q.metas@.len(),
            q.metas@[k].start_event_id <= id < q.metas@[k].end_next_event_id,
        decreases q.metas@.len() - i,
    {
        if id < q.metas@[i].end_next_event_id {
            i
        } else {
            if i == q.metas@.len() - 1 {
                assert(q.metas@.last().end_next_event_id == q.id_counter);
            }
            assert(q.metas@[i].end_next_event_id == q.metas@[i + 1].start_event_id);
            Self::lemma_id_in_meta(q, id, i + 1)
        }
    }

    /// The kept event with id `id` was produced at the frame of the record
    /// whose range holds `id`.
    proof fn lemma_event_frame(q: Self, id: int) -> (k: int)
        requires
            q.wf(),
            q.base_id <= id < q.id_counter,
        ensures
            0 <= k < q.metas@.len(),
            q.metas@[k].start_event_id <= id < q.metas@[k].end_next_event_id,
            q.events@[id - q.base_id].id == id,
            q.events@[id - q.base_id].frame == q.base_frame + k,
    {
        if q.metas@.len() == 0 {
            assert(false);
        }
        let k = Self::lemma_id_in_meta(q, id, 0);
        let j = id - q.base_id;
        assert(q.events@[j].id == q.base_id + j);
        assert(q.metas@[k].frame == q.base_frame + k);
        k
    }

    /// Which frames are kept: a frame up to the current one has a record
    /// exactly when it is not before the base frame.
    pub proof fn lemma_kept_frames(q: Self, frame: u32)
        requires
            q.wf(),
        ensures
            frame <= q.spec_current_frame() ==> (q.meta_at(frame) is None <==> frame < q.spec_base_frame()),
            q.meta_at(frame) matches Some(m) ==> m.frame == frame,
    {
        if q.meta_at(frame) is Some {
            assert(q.metas@[frame - q.base_frame].frame == q.base_frame + (frame - q.base_frame));
        }
    }

    /// The events read for a kept frame are numbered one after the other
    /// from the start of the frame's range, and every id is below the id the
    /// next event gets.
    pub proof fn lemma_current_ids(q: Self, frame: u32)
        requires
            q.wf(),
        ensures
            q.meta_at(frame) matches Some(m) ==> {
                &&& q.spec_base_id() <= m.start_event_id <= m.end_next_event_id <= q.spec_future_id()
                &&& forall|k: int|
                    0 <= k < m.end_next_event_id - m.start_event_id ==> {
                        let e = #[trigger] q.events_between(
                            m.start_event_id as int,
                            m.end_next_event_id as int,
                        )[k];
                        &&& e.id == m.start_event_id + k
                        &&& e.id < q.spec_future_id()
                    }
            },
    {
        if let Some(m) = q.meta_at(frame) {
            q.lemma_meta_ids(frame - q.base_frame);
            assert forall|k: int| 0 <= k < m.end_next_event_id - m.start_event_id implies {
                let e = #[trigger] q.events_between(m.start_event_id as int, m.end_next_event_id as int)[k];
                &&& e.id == m.start_event_id + k
                &&& e.id < q.spec_future_id()
            } by {
                let j = m.start_event_id - q.base_id + k;
                assert(q.events@[j].id == q.base_id + j);
            }
        }
    }

    /// The pre-input events at `frame` for a reader at `cursor_id` lie in the
    /// input window before the frame: each has an id from the cursor on and
    /// below the next id, the ids follow each other, and each was produced
    /// before `frame` but no more than the input window before it.
    #[verifier::rlimit(40)]
    pub proof fn lemma_preinput_window(q: Self, frame: u32, cursor_id: u64)
        requires
            q.wf(),
            cursor_id <= q.spec_future_id(),
            frame > q.spec_current_frame() || q.meta_at(frame) is Some,
        ensures
            q.preinput_range(frame, cursor_id) matches Some((st, en)) ==> {
                &&& q.spec_base_id() <= st <= en <= q.spec_future_id()
                &&& forall|k: int|
                    0 <= k < en - st ==> {
                        let e = #[trigger] q.events_between(st, en)[k];
                        &&& e.id == st + k
                        &&& cursor_id <= e.id < q.spec_future_id()
                        &&& e.frame < frame
                        &&& e.frame + q.spec_input_window() >= frame
                    }
            },
    {
        let m = q.metas@;
        if let Some((st, en)) = q.preinput_range(frame, cursor_id) {
            // Where the range ends.
            if frame > q.current_frame {
                if m.len() > 0 {
                    q.lemma_meta_ids(m.len() - 1);
                }
            } else {
                q.lemma_meta_ids(frame - q.base_frame);
            }
            // Where the candidate start lies.
            let ws = q.window_start_frame(frame);
            if let Some(w) = q.meta_at(ws) {
                q.lemma_meta_ids(ws - q.base_frame);
            } else if m.len() > 0 {
                q.lemma_meta_ids(0);
            }
            assert(q.spec_base_id() <= st <= en <= q.spec_future_id());
            assert forall|k: int| 0 <= k < en - st implies {
                let e = #[trigger] q.events_between(st, en)[k];
                &&& e.id == st + k
                &&& cursor_id <= e.id < q.spec_future_id()
                &&& e.frame < frame
                &&& e.frame + q.spec_input_window() >= frame
            } by {
                let id = st + k;
                let kk = Self::lemma_event_frame(q, id);
                let e = q.events_between(st, en)[k];
                assert(e == q.events@[id - q.base_id]);
                // Before `frame`.
                if frame <= q.current_frame {
                    let fi = frame - q.base_frame;
                    assert(q.meta_at(frame) == Some(m[fi]));
                    if kk > fi {
                        Self::lemma_meta_order(q, fi, kk);
                    }
                }
                // Within the window.
                if let Some(w) = q.meta_at(ws) {
                    let wi = ws - q.base_frame;
                    assert(m[wi] == w);
                    if kk < wi {
                        Self::lemma_meta_order(q, kk, wi);
                    }
                }
            }
        }
    }

    /// A reader further on sees no more pre-input events.
    pub proof fn lemma_preinput_cursor(q: Self, frame: u32, cursor_id: u64, later_cursor: u64)
        requires
            cursor_id <= later_cursor,
        ensures
            q.preinput_range(frame, cursor_id) is Some <==> q.preinput_range(frame, later_cursor) is Some,
            q.preinput_range(frame, cursor_id) matches Some((st, en)) ==> q.preinput_range(
                frame,
                later_cursor,
            ) matches Some((st2, en2)) && en2 == en && st <= st2 && en2 - st2 <= en - st,
    {
    }

    proof fn lemma_ends_ordered(&self, q: Self, i: int)
        requires
            q.wf(),
            0 <= i < q.metas@.len(),
        ensures
            q.metas@[i].end_next_event_id <= q.metas@.last().end_next_event_id,
            q.metas@[0].start_event_id <= q.metas@[i].start_event_id,
        decreases q.metas@.len() - i,
    {
        if i < q.metas@.len() - 1 {
            self.lemma_ends_ordered(q, i + 1);
        }
        if i > 0 {
            self.lemma_starts_ordered(q, i);
        }
    }

    proof fn lemma_starts_ordered(&self, q: Self, i: int)
        requires
            q.wf(),
            0 <= i < q.metas@.len(),
        ensures
            q.metas@[0].start_event_id <= q.metas@[i].start_event_id,
        decreases i,
    {
        if i > 0 {
            self.lemma_starts_ordered(q, i - 1);
            assert(q.metas@[i - 1].end_next_event_id == q.metas@[i].start_event_id);
        }
    }
}

/// The device events of one player at one frame, with the input variables
/// in force at its end.
pub struct InputPlayerEvents<V, P> {
    pub player_id: NumID,
    pub frame: u32,
    pub events: Vec<KeyEvent<P>>,
    pub variables: V,
}

impl<V, P> InputPlayerEvents<V, P> {
    pub fn new(player_id: NumID, frame: u32, events: Vec<KeyEvent<P>>, variables: V) -> (r: Self)
        ensures
            r.player_id == player_id,
            r.frame == frame,
            r.events == events,
            r.variables == variables,
    {
        InputPlayerEvents { player_id, frame, events, variables }
    }
}

/// The device events of all players at one frame.
pub struct InputFrameEvents<V, P> {
    pub frame: u32,
    pub player_events: Vec<InputPlayerEvents<V, P>>,
}

impl<V, P> InputFrameEvents<V, P> {
    pub fn new(frame: u32, player_events: Vec<InputPlayerEvents<V, P>>) -> (r: Self)
        ensures
            r.frame == frame,
            r.player_events == player_events,
    {
        InputFrameEvents { frame, player_events }
    }
}

/// The position of a player's queue: its id minus the first player id,
/// wrapping below zero as `u32` does.
pub open spec fn player_index(id: NumID) -> int {
    if id.0 >= MIN_PLAYER_ID {
        id.0 - MIN_PLAYER_ID
    } else {
        id.0 - MIN_PLAYER_ID + 0x1_0000_0000
    }
}

/// Feeds the player events to the queues in order, stopping at the first
/// one that names no queue (`NotFound`) or does not follow its queue's
/// current frame (`BadArgument`).
pub open spec fn apply_events<V, P>(
    qs: Seq<QueueView<V, P>>,
    pe: Seq<InputPlayerEvents<V, P>>,
) -> (Seq<QueueView<V, P>>, Option<XError>)
    decreases pe.len(),
{
    if pe.len() == 0 {
        (qs, None)
    } else {
        let e = pe[0];
        let idx = player_index(e.player_id);
        if idx >= qs.len() {
            (qs, Some(XError::NotFound))
        } else if e.frame != qs[idx].current_frame + 1 {
            (qs, Some(XError::BadArgument))
        } else {
            apply_events(
                qs.update(idx, qs[idx].produced(e.frame, e.events@, e.variables)),
                pe.drop_first(),
            )
        }
    }
}

/// The earliest current frame among the queues, or 0 when there is none.
pub open spec fn min_current<V, P>(qs: Seq<QueueView<V, P>>) -> u32
    decreases qs.len(),
{
    if qs.len() == 0 {
        0
    } else if qs.len() == 1 {
        qs[0].current_frame
    } else {
        let m = min_current(qs.drop_last());
        if qs.last().current_frame < m {
            qs.last().current_frame
        } else {
            m
        }
    }
}

proof fn lemma_min_current_le<V, P>(qs: Seq<QueueView<V, P>>)
    ensures
        forall|i: int| 0 <= i < qs.len() ==> min_current(qs) <= #[trigger] qs[i].current_frame,
    decreases qs.len(),
{
    if qs.len() > 1 {
        lemma_min_current_le(qs.drop_last());
        assert forall|i: int| 0 <= i < qs.len() implies min_current(qs) <= #[trigger] qs[i].current_frame by {
            if i < qs.len() - 1 {
                assert(qs[i] == qs.drop_last()[i]);
            }
        }
    }
}

/// The frame before each event's frame (wrapping below zero), least first;
/// 0 when there are no events.
pub open spec fn min_prev_frame<V, P>(pe: Seq<InputPlayerEvents<V, P>>) -> u32
    decreases pe.len(),
{
    if pe.len() == 0 {
        0
    } else {
        let last = if pe.last().frame >= 1 {
            (pe.last().frame - 1) as u32
        } else {
            u32::MAX
        };
        if pe.len() == 1 {
            last
        } else {
            let m = min_prev_frame(pe.drop_last());
            if last < m {
                last
            } else {
                m
            }
        }
    }
}

/// The rollback frame of a batch is the least of the frames before the
/// batch's events (a frame 0 wrapping to the largest frame): no event's
/// previous frame lies below it, and some event's previous frame is it.  An
/// empty batch rolls back to frame 0.
pub proof fn lemma_min_prev_frame_is_least<V, P>(pe: Seq<InputPlayerEvents<V, P>>)
    ensures
        pe.len() == 0 ==> min_prev_frame(pe) == 0,
        forall|j: int|
            0 <= j < pe.len() ==> min_prev_frame(pe) <= (if (#[trigger] pe[j]).frame >= 1 {
                pe[j].frame - 1
            } else {
                u32::MAX as int
            }),
        pe.len() > 0 ==> exists|j: int|
            0 <= j < pe.len() && min_prev_frame(pe) == (if (#[trigger] pe[j]).frame >= 1 {
                pe[j].frame - 1
            } else {
                u32::MAX as int
            }),
    decreases pe.len(),
{
    if pe.len() > 1 {
        let prev = pe.drop_last();
        lemma_min_prev_frame_is_least(prev);
        assert forall|j: int| 0 <= j < prev.len() implies #[trigger] prev[j] == pe[j] by {}
        let w = choose|j: int|
            0 <= j < prev.len() && min_prev_frame(prev) == (if (#[trigger] prev[j]).frame >= 1 {
                prev[j].frame - 1
            } else {
                u32::MAX as int
            });
        assert(prev[w] == pe[w]);
        assert(pe.last() == pe[pe.len() - 1]);
        assert forall|j: int| 0 <= j < pe.len() implies min_prev_frame(pe) <= (if (#[trigger] pe[j]).frame
            >= 1 {
            pe[j].frame - 1
        } else {
            u32::MAX as int
        }) by {
            if j < prev.len() {
                assert(prev[j] == pe[j]);
            }
        }
    } else if pe.len() == 1 {
        assert(pe.last() == pe[0]);
    }
}

/// How many device events the player events hold in all.
pub open spec fn total_keys<V, P>(pe: Seq<InputPlayerEvents<V, P>>) -> nat
    decreases pe.len(),
{
    if pe.len() == 0 {
        0
    } else {
        total_keys(pe.drop_last()) + pe.last().events@.len()
    }
}

proof fn lemma_total_keys_step<V, P>(pe: Seq<InputPlayerEvents<V, P>>, n: int)
    requires
        0 <= n < pe.len(),
    ensures
        total_keys(pe.take(n + 1)) == total_keys(pe.take(n)) + pe[n].events@.len(),
{
    assert(pe.take(n + 1).drop_last() =~= pe.take(n));
}

proof fn lemma_total_keys_mono<V, P>(pe: Seq<InputPlayerEvents<V, P>>, n: int)
    requires
        0 <= n <= pe.len(),
    ensures
        total_keys(pe.take(n)) <= total_keys(pe),
    decreases pe.len() - n,
{
    if n < pe.len() {
        lemma_total_keys_step(pe, n);
        lemma_total_keys_mono(pe, n + 1);
    } else {
        assert(pe.take(n) =~= pe);
    }
}

proof fn lemma_produce_bounds<V, P>(
    views0: Seq<QueueView<V, P>>,
    before: Seq<QueueView<V, P>>,
    after: Seq<QueueView<V, P>>,
    idx: int,
    pe: Seq<InputPlayerEvents<V, P>>,
    n: int,
)
    requires
        0 <= n < pe.len(),
        0 <= idx < before.len(),
        before.len() == views0.len(),
        before[idx].future_id + pe[n].events@.len() <= u64::MAX,
        after == before.update(
            idx,
            before[idx].produced(pe[n].frame, pe[n].events@, pe[n].variables),
        ),
        pe[n].frame == before[idx].current_frame + 1,
        forall|i: int|
            0 <= i < views0.len() ==> #[trigger] before[i].current_frame <= views0[i].current_frame + n
                && before[i].future_id <= views0[i].future_id + total_keys(pe.take(n)),
        forall|i: int|
            0 <= i < views0.len() ==> #[trigger] before[i].current_frame >= views0[i].current_frame,
    ensures
        forall|i: int|
            0 <= i < views0.len() ==> #[trigger] after[i].current_frame <= views0[i].current_frame + n
                + 1 && after[i].future_id <= views0[i].future_id + total_keys(pe.take(n + 1)),
        forall|i: int|
            0 <= i < views0.len() ==> #[trigger] after[i].current_frame >= views0[i].current_frame,
{
    lemma_total_keys_step(pe, n);
    lemma_virtual_events(pe[n].events@, before[idx].future_id, pe[n].frame);
    assert forall|i: int| 0 <= i < views0.len() implies #[trigger] after[i].current_frame
        <= views0[i].current_frame + n + 1 && after[i].future_id <= views0[i].future_id + total_keys(
        pe.take(n + 1),
    ) by {
        if i != idx {
            assert(after[i] == before[i]);
        }
    }
}

/// Whether some of the player events name the player at position `i`.
pub open spec fn fed_by<V, P>(pe: Seq<InputPlayerEvents<V, P>>, i: int) -> bool {
    exists|j: int| 0 <= j < pe.len() && #[trigger] player_index(pe[j].player_id) == i
}

/// The input of all players: one event queue per player, and the frame up
/// to which every player's events have arrived.
pub struct SystemInput<V, P> {
    queues: Vec<InputEventQueue<V, P>>,
    input_window: u32,
    synced_frame: u32,
    current_frames: Vec<u32>,
    empty_variables: V,
}

impl<V: Copy, P: Copy> SystemInput<V, P> {
    /// What the queues hold, by player position.
    pub closed spec fn queue_views(&self) -> Seq<QueueView<V, P>> {
        self.queues@.map_values(|q: InputEventQueue<V, P>| q.qview())
    }

    pub closed spec fn spec_input_window(&self) -> u32 {
        self.input_window
    }

    pub closed spec fn spec_synced_frame(&self) -> u32 {
        self.synced_frame
    }

    /// The variables a queue reports before its first frame.
    pub closed spec fn spec_empty_variables(&self) -> V {
        self.empty_variables
    }

    /// Every queue is well formed, belongs to the player at its position,
    /// shares the input window, and its current frame is recorded.
    pub closed spec fn wf(&self) -> bool {
        &&& self.queues@.len() <= MAX_PLAYER
        &&& self.current_frames@.len() == self.queues@.len()
        &&& forall|i: int|
            #![trigger self.queues@[i]]
            0 <= i < self.queues@.len() ==> {
                &&& self.queues@[i].wf()
                &&& self.current_frames@[i] == self.queues@[i].spec_current_frame()
                &&& self.queues@[i].spec_player_id().0 == MIN_PLAYER_ID + i
                &&& self.queues@[i].spec_input_window() == self.input_window
                &&& self.synced_frame <= self.queues@[i].spec_current_frame()
            }
        &&& self.queues@.len() == 0 ==> self.synced_frame == 0
    }

    pub fn new(input_window: u32, empty_variables: V) -> (r: Self)
        ensures
            r.wf(),
            r.queue_views().len() == 0,
            r.spec_input_window() == input_window,
            r.spec_synced_frame() == 0,
    {
        SystemInput {
            queues: Vec::new(),
            input_window,
            synced_frame: 0,
            current_frames: Vec::new(),
            empty_variables,
        }
    }

    /// The number of players.
    pub fn player_count(&self) -> (r: u32)
        requires
            self.wf(),
        ensures
            r == self.queue_views().len(),
    {
        self.queues.len() as u32
    }

    pub fn input_window(&self) -> (r: u32)
        ensures
            r == self.spec_input_window(),
    {
        self.input_window
    }

    /// The frame up to which every player's events have arrived.
    pub fn synced_frame(&self) -> (r: u32)
        ensures
            r == self.spec_synced_frame(),
    {
        self.synced_frame
    }

    /// The first frame that not every player has reached.
    pub fn unsynced_frame(&self) -> (r: u32)
        requires
            self.spec_synced_frame() < u32::MAX,
        ensures
            r == self.spec_synced_frame() + 1,
    {
        self.synced_frame + 1
    }

    /// Creates one empty queue per player, numbered from the first player
    /// id; `BadOperation` when queues exist already, `BadArgument` for no
    /// players or more than the game holds.
    pub fn init(&mut self, player_count: usize) -> (r: XResult<()>)
        requires
            old(self).wf(),
        ensures
            final(self).wf(),
            old(self).queue_views().len() != 0 ==> r == Err::<(), XError>(XError::BadOperation),
            old(self).queue_views().len() == 0 && (player_count == 0 || player_count > MAX_PLAYER)
                ==> r == Err::<(), XError>(XError::BadArgument),
            r is Err ==> final(self).queue_views() == old(self).queue_views(),
            r is Ok <==> old(self).queue_views().len() == 0 && 0 < player_count <= MAX_PLAYER,
            r is Ok ==> {
                &&& final(self).queue_views().len() == player_count
                &&& forall|i: int|
                    0 <= i < player_count ==> #[trigger] final(self).queue_views()[i] == (QueueView {
                        player_id: NumID((MIN_PLAYER_ID + i) as u32),
                        input_window: old(self).spec_input_window(),
                        future_id: FIRST_EVENT_ID,
                        events: Seq::<VirtualEvent<P>>::empty(),
                        metas: Seq::<InputFrameMeta<V>>::empty(),
                        current_frame: 0,
                        synced_frame: 0,
                        base_frame: 1,
                        base_id: FIRST_EVENT_ID,
                        empty_variables: old(self).spec_empty_variables(),
                    })
            },
            final(self).spec_input_window() == old(self).spec_input_window(),
            final(self).spec_synced_frame() == old(self).spec_synced_frame(),
    {
        if self.queues.len() != 0 {
            return Err(XError::BadOperation);
        }
        if player_count == 0 || player_count > MAX_PLAYER {
            return Err(XError::BadArgument);
        }
        let mut queues: Vec<InputEventQueue<V, P>> = Vec::new();
        let mut frames: Vec<u32> = Vec::new();
        let mut idx: usize = 0;
        while idx < player_count
            invariant
                idx <= player_count <= MAX_PLAYER,
                queues@.len() == idx,
                frames@.len() == idx,
                forall|i: int| 0 <= i < idx ==> #[trigger] queues@[i].wf(),
                forall|i: int| 0 <= i < idx ==> #[trigger] frames@[i] == 0,
                forall|i: int|
                    0 <= i < idx ==> #[trigger] queues@[i].qview() == (QueueView {
                        player_id: NumID((MIN_PLAYER_ID + i) as u32),
                        input_window: self.input_window,
                        future_id: FIRST_EVENT_ID,
                        events: Seq::<VirtualEvent<P>>::empty(),
                        metas: Seq::<InputFrameMeta<V>>::empty(),
                        current_frame: 0,
                        synced_frame: 0,
                        base_frame: 1,
                        base_id: FIRST_EVENT_ID,
                        empty_variables: self.empty_variables,
                    }),
            decreases player_count - idx,
        {
            let player_id = NumID((idx as u32) + MIN_PLAYER_ID);
            let q = InputEventQueue::new(player_id, self.input_window, self.empty_variables);
            proof {
                assert(q.qview() =~= (QueueView {
                    player_id: NumID((MIN_PLAYER_ID + idx) as u32),
                    input_window: self.input_window,
                    future_id: FIRST_EVENT_ID,
                    events: Seq::<VirtualEvent<P>>::empty(),
                    metas: Seq::<InputFrameMeta<V>>::empty(),
                    current_frame: 0,
                    synced_frame: 0,
                    base_frame: 1,
                    base_id: FIRST_EVENT_ID,
                    empty_variables: self.empty_variables,
                }));
            }
            queues.push(q);
            frames.push(0);
            idx = idx + 1;
        }
        self.queues = queues;
        self.current_frames = frames;
        proof {
            assert forall|i: int| 0 <= i < self.queues@.len() implies #[trigger] self.queues@[i].wf()
                && self.current_frames@[i] == self.queues@[i].spec_current_frame()
                && self.queues@[i].spec_player_id().0 == MIN_PLAYER_ID + i
                && self.queues@[i].spec_input_window() == self.input_window by {
                assert(self.queues@[i].qview().player_id == NumID((MIN_PLAYER_ID + i) as u32));
                assert(self.queues@[i].qview().current_frame == 0);
            }
            assert forall|i: int| 0 <= i < player_count implies #[trigger] self.queue_views()[i] == (QueueView {
                        player_id: NumID((MIN_PLAYER_ID + i) as u32),
                        input_window: old(self).spec_input_window(),
                        future_id: FIRST_EVENT_ID,
                        events: Seq::<VirtualEvent<P>>::empty(),
                        metas: Seq::<InputFrameMeta<V>>::empty(),
                        current_frame: 0,
                        synced_frame: 0,
                        base_frame: 1,
                        base_id: FIRST_EVENT_ID,
                        empty_variables: old(self).spec_empty_variables(),
                    }) by {
                assert(self.queue_views()[i] == self.queues@[i].qview());
            }
        }
        Ok(())
    }

    /// Feeds each player's events to that player's queue, in order, and
    /// then moves the synchronized frame to the earliest current frame of
    /// all queues.  Returns the frame the game should roll back to: the
    /// earliest frame before an event's frame.  The first event that names
    /// no player fails with `NotFound`, and one that does not follow its
    /// queue's current frame fails with `BadArgument`; the events before it
    /// stay produced.
    pub fn produce(&mut self, player_events: &[InputPlayerEvents<V, P>]) -> (r: XResult<u32>)
        requires
            old(self).wf(),
            forall|i: int|
                0 <= i < old(self).queue_views().len() && fed_by(player_events@, i) ==> #[trigger] old(
                    self,
                ).queue_views()[i].current_frame + player_events@.len() < u32::MAX && old(
                    self,
                ).queue_views()[i].future_id + total_keys(player_events@) <= u64::MAX,
        ensures
            final(self).wf(),
            ({
                let (qs, err) = apply_events(old(self).queue_views(), player_events@);
                &&& final(self).queue_views() == qs
                &&& err is None <==> r is Ok
                &&& err matches Some(e) ==> r == Err::<u32, XError>(e) && final(self).spec_synced_frame()
                    == old(self).spec_synced_frame()
                &&& r is Ok ==> r == Ok::<u32, XError>(min_prev_frame(player_events@))
                    && final(self).spec_synced_frame() == min_current(qs)
            }),
            final(self).spec_input_window() == old(self).spec_input_window(),
    {
        let base_frame = self.min_prev(player_events);
        let ghost views0 = self.queue_views();
        let ghost pe = player_events@;
        let mut n: usize = 0;
        proof {
            assert(pe.skip(0) =~= pe);
        }
        while n < player_events.len()
            invariant
                self.wf(),
                n <= pe.len(),
                pe == player_events@,
                apply_events(views0, pe) == apply_events(self.queue_views(), pe.skip(n as int)),
                views0 == old(self).queue_views(),
                self.queue_views().len() == views0.len(),
                self.synced_frame == old(self).synced_frame,
                self.input_window == old(self).input_window,
                forall|i: int|
                    0 <= i < views0.len() ==> #[trigger] self.queue_views()[i].current_frame
                        <= views0[i].current_frame + n && self.queue_views()[i].future_id
                        <= views0[i].future_id + total_keys(pe.take(n as int)),
                forall|i: int|
                    0 <= i < views0.len() ==> #[trigger] self.queue_views()[i].current_frame
                        >= views0[i].current_frame,
                forall|i: int|
                    0 <= i < views0.len() && fed_by(pe, i) ==> #[trigger] views0[i].current_frame
                        + pe.len() < u32::MAX && views0[i].future_id + total_keys(pe) <= u64::MAX,
            decreases pe.len() - n,
        {
            proof {
                lemma_total_keys_step(pe, n as int);
                lemma_total_keys_mono(pe, n as int + 1);
                assert(pe.skip(n as int)[0] == pe[n as int]);
                assert(pe.skip(n as int).drop_first() =~= pe.skip(n as int + 1));
            }
            let events = &player_events[n];
            let idx = events.player_id.0.wrapping_sub(MIN_PLAYER_ID) as usize;
            proof {
                assert(idx as int == player_index(events.player_id));
                assert(*events == pe[n as int]);
                assert(player_index(pe[n as int].player_id) == idx as int);
                assert(fed_by(pe, idx as int));
            }
            if idx < self.queues.len() {
                let ghost before = self.queue_views();
                proof {
                    assert(self.queues@[idx as int].qview() == before[idx as int]);
                }
                let r = self.queues[idx].produce(events.frame, events.events.as_slice(), events.variables);
                match r {
                    Err(e) => {
                        proof {
                            assert(self.queue_views() =~= before);
                            let rest = pe.skip(n as int);
                            assert(rest[0] == pe[n as int]);
                            assert(events.frame != before[idx as int].current_frame + 1);
                            assert(apply_events(before, rest) == (before, Some(XError::BadArgument)));
                        }
                        return Err(e);
                    },
                    Ok(()) => {},
                }
                let cf = self.queues[idx].current_frame();
                self.current_frames.set(idx, cf);
                proof {
                    lemma_virtual_events(events.events@, before[idx as int].future_id, events.frame);
                    assert(self.queue_views() =~= before.update(
                        idx as int,
                        before[idx as int].produced(events.frame, events.events@, events.variables),
                    ));
                    lemma_produce_bounds(views0, before, self.queue_views(), idx as int, pe, n as int);
                }
            } else {
                proof {
                    let rest = pe.skip(n as int);
                    let cur = self.queue_views();
                    assert(rest[0] == pe[n as int]);
                    assert(apply_events(cur, rest) == (cur, Some(XError::NotFound)));
                }
                return Err(XError::NotFound);
            }
            n = n + 1;
        }
        proof {
            assert(pe.skip(pe.len() as int) =~= Seq::<InputPlayerEvents<V, P>>::empty());
        }
        let synced = self.min_current_frame();
        proof {
            lemma_min_current_le(self.queue_views());
        }
        self.synced_frame = synced;
        proof {
            assert forall|i: int| 0 <= i < self.queues@.len() implies self.synced_frame
                <= (#[trigger] self.queues@[i]).spec_current_frame() by {
                assert(self.queue_views()[i] == self.queues@[i].qview());
                assert(synced <= self.queue_views()[i].current_frame);
            }
        }
        Ok(base_frame)
    }

    fn min_prev(&self, player_events: &[InputPlayerEvents<V, P>]) -> (r: u32)
        ensures
            r == min_prev_frame(player_events@),
    {
        let mut m: u32 = 0;
        let mut i: usize = 0;
        while i < player_events.len()
            invariant
                i <= player_events@.len(),
                m == min_prev_frame(player_events@.take(i as int)),
            decreases player_events@.len() - i,
        {
            proof {
                assert(player_events@.take(i + 1).drop_last() =~= player_events@.take(i as int));
            }
            let f = player_events[i].frame.wrapping_sub(1);
            if i == 0 || f < m {
                m = f;
            }
            i = i + 1;
        }
        proof {
            assert(player_events@.take(player_events@.len() as int) =~= player_events@);
        }
        m
    }

    fn min_current_frame(&self) -> (r: u32)
        requires
            self.wf(),
        ensures
            r == min_current(self.queue_views()),
    {
        let ghost qs = self.queue_views();
        let mut m: u32 = 0;
        let mut i: usize = 0;
        while i < self.current_frames.len()
            invariant
                self.wf(),
                qs == self.queue_views(),
                i <= qs.len(),
                m == min_current(qs.take(i as int)),
            decreases qs.len() - i,
        {
            proof {
                assert(qs.take(i + 1).drop_last() =~= qs.take(i as int));
                assert(self.current_frames@[i as int] == qs[i as int].current_frame);
            }
            let f = self.current_frames[i];
            if i == 0 || f < m {
                m = f;
            }
            i = i + 1;
        }
        proof {
            assert(qs.take(qs.len() as int) =~= qs);
        }
        m
    }

    /// Confirms the synchronized frame on every queue.
    pub fn confirm(&mut self) -> (r: XResult<()>)
        requires
            old(self).wf(),
        ensures
            final(self).wf(),
            r is Ok,
            final(self).queue_views().len() == old(self).queue_views().len(),
            forall|i: int|
                0 <= i < old(self).queue_views().len() ==> #[trigger] final(self).queue_views()[i]
                    == old(self).queue_views()[i].confirmed(old(self).spec_synced_frame()),
            final(self).spec_synced_frame() == old(self).spec_synced_frame(),
            final(self).spec_input_window() == old(self).spec_input_window(),
    {
        let ghost views0 = self.queue_views();
        proof {
            assert forall|j: int| 0 <= j < views0.len() implies old(self).synced_frame
                <= #[trigger] views0[j].current_frame by {
                assert(views0[j] == self.queues@[j].qview());
            }
        }
        let mut i: usize = 0;
        while i < self.queues.len()
            invariant
                self.wf(),
                i <= self.queues@.len(),
                self.queue_views().len() == views0.len(),
                self.synced_frame == old(self).synced_frame,
                self.input_window == old(self).input_window,
                forall|j: int|
                    0 <= j < views0.len() ==> old(self).synced_frame <= #[trigger] views0[j].current_frame,
                views0 == old(self).queue_views(),
                forall|j: int|
                    0 <= j < i ==> #[trigger] self.queue_views()[j] == views0[j].confirmed(
                        old(self).synced_frame,
                    ),
                forall|j: int| i <= j < views0.len() ==> #[trigger] self.queue_views()[j] == views0[j],
            decreases self.queues@.len() - i,
        {
            let ghost before = self.queue_views();
            proof {
                assert(self.queues@[i as int].qview() == before[i as int]);
                assert(before[i as int] == views0[i as int]);
                assert(old(self).synced_frame <= views0[i as int].current_frame);
                assert(self.queues@[i as int].qview().current_frame == self.queues@[i as int].spec_current_frame());
                assert(self.synced_frame <= self.queues@[i as int].spec_current_frame());
            }
            let r = self.queues[i].confirm(self.synced_frame);
            match r {
                Err(e) => {
                    return Err(e);
                },
                Ok(()) => {},
            }
            proof {
                assert forall|j: int| 0 <= j < views0.len() && j != i implies #[trigger] self.queue_views()[j]
                    == before[j] by {
                    assert(self.queue_views()[j] == self.queues@[j].qview());
                }
            }
            i = i + 1;
        }
        Ok(())
    }

    /// The queue of the player `player_id`; `NotFound` when the game has no
    /// such player.
    pub fn player_events(&self, player_id: NumID) -> (r: XResult<&InputEventQueue<V, P>>)
        requires
            self.wf(),
        ensures
            player_index(player_id) < self.queue_views().len() ==> (r matches Ok(q) && q.qview()
                == self.queue_views()[player_index(player_id)] && q.wf()),
            player_index(player_id) >= self.queue_views().len() ==> r == Err::<
                &InputEventQueue<V, P>,
                XError,
            >(XError::NotFound),
    {
        let idx = player_id.0.wrapping_sub(MIN_PLAYER_ID) as usize;
        if idx < self.queues.len() {
            Ok(&self.queues[idx])
        } else {
            Err(XError::NotFound)
        }
    }
}

} // verus!
