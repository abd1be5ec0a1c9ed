use vstd::prelude::*;

use crate::error::{XError, XResult};
use crate::state::StateEntry;

verus! {

/// What a save package says of itself.
pub struct SaveMeta {
    pub game: String,
    pub rule_version: String,
}

impl SaveMeta {
    pub fn new(game: String, rule_version: String) -> (r: SaveMeta)
        ensures
            r.game@ == game@,
            r.rule_version@ == rule_version@,
    {
        SaveMeta { game, rule_version }
    }
}

/// The update states of one frame, as a save package stores them.
pub struct SaveStateUpdates<S> {
    pub frame: u32,
    pub updates: Vec<StateEntry<S>>,
}

impl<S> SaveStateUpdates<S> {
    pub fn new(frame: u32, updates: Vec<StateEntry<S>>) -> (r: Self)
        ensures
            r.frame == frame,
            r.updates@ == updates@,
    {
        SaveStateUpdates { frame, updates }
    }
}

/// Which frames a save has taken: inputs are saved from frame 1 on, states
/// from frame 0 on, each one frame after the last, and nothing once the
/// save is stopped.
pub struct SaveProgress {
    pub running: bool,
    pub input_frame: u32,
    pub state_frame: u32,
}

/// `frame + 1`, wrapping past the largest `u32` to 0.
pub open spec fn next_frame(frame: u32) -> u32 {
    if frame == u32::MAX {
        0
    } else {
        (frame + 1) as u32
    }
}

impl SaveProgress {
    /// A running save that has taken no frame yet.
    pub fn new() -> (r: SaveProgress)
        ensures
            r.running,
            r.input_frame == 0,
            r.state_frame == u32::MAX,
    {
        SaveProgress { running: true, input_frame: 0, state_frame: u32::MAX }
    }

    /// Takes the inputs of `frame`: `BadOperation` once stopped, and
    /// `BadArgument` unless `frame` follows the last input frame.
    pub fn accept_input(&mut self, frame: u32) -> (r: XResult<()>)
        ensures
            !old(self).running ==> r == Err::<(), XError>(XError::BadOperation),
            old(self).running && frame != next_frame(old(self).input_frame) ==> r == Err::<(), XError>(
                XError::BadArgument,
            ),
            r is Ok <==> old(self).running && frame == next_frame(old(self).input_frame),
            *final(self) == if r is Ok {
                SaveProgress { input_frame: frame, ..*old(self) }
            } else {
                *old(self)
            },
    {
        if !self.running {
            return Err(XError::BadOperation);
        }
        if frame != self.input_frame.wrapping_add(1) {
            return Err(XError::BadArgument);
        }
        self.input_frame = frame;
        Ok(())
    }

    /// Takes the states of `frame`: `BadOperation` once stopped, and
    /// `BadArgument` unless `frame` follows the last state frame.
    pub fn accept_state(&mut self, frame: u32) -> (r: XResult<()>)
        ensures
            !old(self).running ==> r == Err::<(), XError>(XError::BadOperation),
            old(self).running && frame != next_frame(old(self).state_frame) ==> r == Err::<(), XError>(
                XError::BadArgument,
            ),
            r is Ok <==> old(self).running && frame == next_frame(old(self).state_frame),
            *final(self) == if r is Ok {
                SaveProgress { state_frame: frame, ..*old(self) }
            } else {
                *old(self)
            },
    {
        if !self.running {
            return Err(XError::BadOperation);
        }
        if frame != self.state_frame.wrapping_add(1) {
            return Err(XError::BadArgument);
        }
        self.state_frame = frame;
        Ok(())
    }

    /// Stops the save; says whether it was running, so that the caller
    /// packs it only once.
    pub fn stop(&mut self) -> (r: bool)
        ensures
            r == old(self).running,
            *final(self) == (SaveProgress { running: false, ..*old(self) }),
    {
        let was = self.running;
        self.running = false;
        was
    }
}

/// The ASCII decimal digits of `n`, most significant first, without
/// leading zeros.
pub open spec fn decimal(n: nat) -> Seq<u8>
    decreases n,
{
    if n < 10 {
        seq![(48 + n) as u8]
    } else {
        decimal(n / 10).push((48 + n % 10) as u8)
    }
}

/// The number that a string of ASCII decimal digits reads as, most
/// significant digit first.
pub open spec fn digits_value(s: Seq<u8>) -> int
    decreases s.len(),
{
    if s.len() == 0 {
        0
    } else {
        digits_value(s.drop_last()) * 10 + (s.last() - 48)
    }
}

/// The decimal text of a number is made of ASCII digits only, reads back as
/// that number, and starts with a zero only when the number is zero.
pub proof fn lemma_decimal_reads_back(n: nat)
    ensures
        decimal(n).len() >= 1,
        forall|i: int| 0 <= i < decimal(n).len() ==> 48 <= #[trigger] decimal(n)[i] <= 57,
        digits_value(decimal(n)) == n,
        n >= 1 ==> decimal(n)[0] != 48,
    decreases n,
{
    if n >= 10 {
        let q = n / 10;
        lemma_decimal_reads_back(q);
        let d = decimal(n);
        assert(d == decimal(q).push((48 + n % 10) as u8));
        assert(d.drop_last() == decimal(q));
        assert forall|i: int| 0 <= i < d.len() implies 48 <= #[trigger] d[i] <= 57 by {
            if i < d.len() - 1 {
                assert(d[i] == decimal(q)[i]);
            } else {
                assert(d[i] == 48 + n % 10);
            }
        }
        assert(d[0] == decimal(q)[0]);
        assert(d.last() == 48 + n % 10);
        assert(digits_value(d) == digits_value(decimal(q)) * 10 + n % 10);
        assert(n == q * 10 + n % 10);
    } else {
        assert(decimal(n)[0] == 48 + n);
        assert(decimal(n).drop_last() =~= Seq::<u8>::empty());
        assert(digits_value(decimal(n)) == digits_value(Seq::<u8>::empty()) * 10 + n);
    }
}

/// Appends the decimal digits of `n` to `out`.
pub fn push_decimal(out: &mut Vec<u8>, n: u32)
    ensures
        final(out)@ == old(out)@ + decimal(n as nat),
    decreases n,
{
    if n >= 10 {
        push_decimal(out, n / 10);
    }
    let d: u8 = (n % 10) as u8;
    out.push(48u8 + d);
    proof {
        assert(out@ =~= old(out)@ + decimal(n as nat));
    }
}

/// The decimal digits of `n`.
pub fn to_decimal(n: u32) -> (r: Vec<u8>)
    ensures
        r@ == decimal(n as nat),
{
    let mut out: Vec<u8> = Vec::new();
    push_decimal(&mut out, n);
    proof {
        assert(out@ =~= decimal(n as nat));
    }
    out
}

/// The index of a fresh input file: the position 0 in a JSON array.
pub open spec fn input_index_start() -> Seq<u8> {
    seq![91u8, 48u8, 93u8]
}

/// What the input index gets for one more saved frame whose data ends at
/// `pos`, written over the closing bracket: `,pos]`.
pub open spec fn input_index_entry(pos: u32) -> Seq<u8> {
    seq![44u8] + decimal(pos as nat) + seq![93u8]
}

/// The input index once frames whose data end at `ends` are saved: the
/// JSON array of 0 and those positions.
pub open spec fn input_index_text(ends: Seq<u32>) -> Seq<u8>
    decreases ends.len(),
{
    if ends.len() == 0 {
        input_index_start()
    } else {
        let prev = input_index_text(ends.drop_last());
        prev.take(prev.len() - 1) + input_index_entry(ends.last())
    }
}

/// The bytes the input index gets for a frame whose data ends at `pos`.
pub fn input_index_entry_bytes(pos: u32) -> (r: Vec<u8>)
    ensures
        r@ == input_index_entry(pos),
{
    let mut out: Vec<u8> = Vec::new();
    out.push(44u8);
    push_decimal(&mut out, pos);
    out.push(93u8);
    proof {
        assert(out@ =~= input_index_entry(pos));
    }
    out
}

/// The bytes of a fresh input index.
pub fn input_index_start_bytes() -> (r: Vec<u8>)
    ensures
        r@ == input_index_start(),
{
    let mut out: Vec<u8> = Vec::new();
    out.push(91u8);
    out.push(48u8);
    out.push(93u8);
    proof {
        assert(out@ =~= input_index_start());
    }
    out
}

/// What the state index gets for a frame whose init states start at `init`
/// and update states at `update`: `[init,update],`.
pub open spec fn state_index_entry(init: u32, update: u32) -> Seq<u8> {
    seq![91u8] + decimal(init as nat) + seq![44u8] + decimal(update as nat) + seq![93u8, 44u8]
}

/// What closes the state index when the data ends at `tail`: `[tail,tail]]`.
pub open spec fn state_index_tail(tail: u32) -> Seq<u8> {
    seq![91u8] + decimal(tail as nat) + seq![44u8] + decimal(tail as nat) + seq![93u8, 93u8]
}

/// The bytes the state index gets for one frame.
pub fn state_index_entry_bytes(init: u32, update: u32) -> (r: Vec<u8>)
    ensures
        r@ == state_index_entry(init, update),
{
    let mut out: Vec<u8> = Vec::new();
    out.push(91u8);
    push_decimal(&mut out, init);
    out.push(44u8);
    push_decimal(&mut out, update);
    out.push(93u8);
    out.push(44u8);
    proof {
        assert(out@ =~= state_index_entry(init, update));
    }
    out
}

/// The bytes that close the state index.
pub fn state_index_tail_bytes(tail: u32) -> (r: Vec<u8>)
    ensures
        r@ == state_index_tail(tail),
{
    let mut out: Vec<u8> = Vec::new();
    out.push(91u8);
    push_decimal(&mut out, tail);
    out.push(44u8);
    push_decimal(&mut out, tail);
    out.push(93u8);
    out.push(93u8);
    proof {
        assert(out@ =~= state_index_tail(tail));
    }
    out
}

/// A position in a data file as the index stores it; `Overflow` for a file
/// longer than an index can say.
pub fn index_position(pos: u64) -> (r: XResult<u32>)
    ensures
        pos <= u32::MAX ==> r == Ok::<u32, XError>(pos as u32),
        pos > u32::MAX ==> r == Err::<u32, XError>(XError::Overflow),
{
    if pos > u32::MAX as u64 {
        Err(XError::Overflow)
    } else {
        Ok(pos as u32)
    }
}

/// The bytes of a file after `bytes` are written at `pos`, within or just
/// past its end: what lay under them is replaced, the rest stays.
pub open spec fn overwrite(text: Seq<u8>, pos: int, bytes: Seq<u8>) -> Seq<u8> {
    if pos + bytes.len() >= text.len() {
        text.take(pos) + bytes
    } else {
        text.take(pos) + bytes + text.skip(pos + bytes.len())
    }
}

proof fn lemma_decimal_nonempty(n: nat)
    ensures
        decimal(n).len() >= 1,
        decimal(n).last() == 93u8 ==> false,
    decreases n,
{
    if n >= 10 {
        lemma_decimal_nonempty(n / 10);
    }
}

/// Every input index ends in its closing bracket.
proof fn lemma_input_index_closed(ends: Seq<u32>)
    ensures
        input_index_text(ends).len() >= 3,
        input_index_text(ends).last() == 93u8,
    decreases ends.len(),
{
    if ends.len() > 0 {
        lemma_input_index_closed(ends.drop_last());
        lemma_decimal_nonempty(ends.last() as nat);
    }
}

/// Writing the entry of one more frame over the closing bracket of the
/// input index gives the index of all frames saved so far: the file stays
/// one JSON array of the data positions.
pub proof fn lemma_input_index_append(ends: Seq<u32>, pos: u32)
    ensures
        ({
            let text = input_index_text(ends);
            overwrite(text, text.len() - 1, input_index_entry(pos)) == input_index_text(ends.push(pos))
        }),
        input_index_text(ends.push(pos)).last() == 93u8,
{
    assert(ends.push(pos).drop_last() =~= ends);
    lemma_input_index_closed(ends);
    lemma_input_index_closed(ends.push(pos));
}

/// The entries of the state index for frames saved so far, one after the
/// other.
pub open spec fn state_index_entries(entries: Seq<(u32, u32)>) -> Seq<u8>
    decreases entries.len(),
{
    if entries.len() == 0 {
        Seq::empty()
    } else {
        state_index_entries(entries.drop_last()) + state_index_entry(
            entries.last().0,
            entries.last().1,
        )
    }
}

/// The state index once the frames of `entries` are saved and the data
/// ends at `tail`: a JSON array of `[init,update]` pairs closed by
/// `[tail,tail]`.
pub open spec fn state_index_text(entries: Seq<(u32, u32)>, tail: u32) -> Seq<u8> {
    seq![91u8] + state_index_entries(entries) + state_index_tail(tail)
}

/// A larger number has at least as many digits.
pub proof fn lemma_decimal_len_monotonic(a: nat, b: nat)
    requires
        a <= b,
    ensures
        decimal(a).len() <= decimal(b).len(),
    decreases b,
{
    if b >= 10 {
        if a >= 10 {
            lemma_decimal_len_monotonic(a / 10, b / 10);
        } else {
            lemma_decimal_nonempty(b / 10);
        }
    }
}

/// Writing the entry of one more frame and the new closing pair where the
/// old closing pair began gives the index of all frames saved so far, as
/// long as the frame's init states start where the data ended before and
/// its update states after them: the bytes written cover the old closing
/// pair.
pub proof fn lemma_state_index_append(entries: Seq<(u32, u32)>, tail: u32, update: u32, new_tail: u32)
    requires
        tail <= update,
    ensures
        overwrite(
            state_index_text(entries, tail),
            1 + state_index_entries(entries).len() as int,
            state_index_entry(tail, update) + state_index_tail(new_tail),
        ) == state_index_text(entries.push((tail, update)), new_tail),
{
    lemma_decimal_len_monotonic(tail as nat, update as nat);
    let text = state_index_text(entries, tail);
    let pos: int = 1 + state_index_entries(entries).len() as int;
    let bytes = state_index_entry(tail, update) + state_index_tail(new_tail);
    assert(entries.push((tail, update)).drop_last() =~= entries);
    assert(pos + bytes.len() >= text.len());
    assert(text.take(pos) =~= seq![91u8] + state_index_entries(entries));
    assert(overwrite(text, pos, bytes) =~= state_index_text(entries.push((tail, update)), new_tail));
}

/// The index of a fresh state file: an empty JSON array.
pub open spec fn state_index_start() -> Seq<u8> {
    seq![91u8, 93u8]
}

/// The bytes of a fresh state index.
pub fn state_index_start_bytes() -> (r: Vec<u8>)
    ensures
        r@ == state_index_start(),
{
    let mut out: Vec<u8> = Vec::new();
    out.push(91u8);
    out.push(93u8);
    proof {
        assert(out@ =~= state_index_start());
    }
    out
}

/// Writing the entry of the first frame and the closing pair just inside a
/// fresh state index gives the index of that frame.
pub proof fn lemma_state_index_first(init: u32, update: u32, tail: u32)
    ensures
        overwrite(state_index_start(), 1, state_index_entry(init, update) + state_index_tail(tail))
            == state_index_text(seq![(init, update)], tail),
{
    let es = seq![(init, update)];
    assert(es.drop_last() =~= Seq::<(u32, u32)>::empty());
    assert(es.last() == (init, update));
    assert(state_index_entries(es.drop_last()) =~= Seq::<u8>::empty());
    assert(state_index_entries(es) == state_index_entries(es.drop_last()) + state_index_entry(
        init,
        update,
    ));
    assert(state_index_entries(es) =~= state_index_entry(init, update));
    assert(state_index_start().take(1) =~= seq![91u8]);
    assert(overwrite(state_index_start(), 1, state_index_entry(init, update) + state_index_tail(tail))
        =~= state_index_text(seq![(init, update)], tail));
}

/// Where a playback stands in the indexes it reads.
pub struct PlaybackCursor {
    pub input_ptr: u32,
    pub state_ptr: u32,
}

/// Where the data of the next saved input frame lies, given the input index,
/// and the cursor after it: `None` once every frame is read.
pub open spec fn spec_next_input(ptr: u32, index: Seq<u32>) -> Option<(u32, u32)> {
    if ptr + 1 >= index.len() {
        None
    } else {
        Some((index[ptr as int], (index[ptr + 1] - index[ptr as int]) as u32))
    }
}

/// Where the data of the next saved state frame lies, given the state
/// index: the start and length of its init states, then the length of its
/// update states.  `None` once every frame is read.
pub open spec fn spec_next_state(ptr: u32, index: Seq<(u32, u32)>) -> Option<(u32, u32, u32)> {
    if ptr + 1 >= index.len() {
        None
    } else {
        let (init, update) = index[ptr as int];
        let end = index[ptr + 1].0;
        Some((init, (update - init) as u32, (end - update) as u32))
    }
}

impl PlaybackCursor {
    pub fn new() -> (r: PlaybackCursor)
        ensures
            r.input_ptr == 0,
            r.state_ptr == 0,
    {
        PlaybackCursor { input_ptr: 0, state_ptr: 0 }
    }

    /// The start and length of the next input frame's data, moving on to
    /// the frame after it.
    pub fn next_input(&mut self, index: &Vec<u32>) -> (r: Option<(u32, u32)>)
        requires
            old(self).input_ptr < u32::MAX,
            old(self).input_ptr + 1 < index@.len() ==> index@[old(self).input_ptr as int]
                <= index@[old(self).input_ptr + 1],
        ensures
            r == spec_next_input(old(self).input_ptr, index@),
            final(self).state_ptr == old(self).state_ptr,
            final(self).input_ptr == if r is Some {
                old(self).input_ptr + 1
            } else {
                old(self).input_ptr as int
            },
    {
        let ptr = self.input_ptr as usize;
        if ptr + 1 >= index.len() {
            return None;
        }
        let pos = index[ptr];
        let end = index[ptr + 1];
        self.input_ptr = self.input_ptr + 1;
        Some((pos, end - pos))
    }

    /// The start and length of the next state frame's init data and the
    /// length of its update data, moving on to the frame after it.
    pub fn next_state(&mut self, index: &Vec<(u32, u32)>) -> (r: Option<(u32, u32, u32)>)
        requires
            old(self).state_ptr < u32::MAX,
            old(self).state_ptr + 1 < index@.len() ==> index@[old(self).state_ptr as int].0
                <= index@[old(self).state_ptr as int].1 <= index@[old(self).state_ptr + 1].0,
        ensures
            r == spec_next_state(old(self).state_ptr, index@),
            final(self).input_ptr == old(self).input_ptr,
            final(self).state_ptr == if r is Some {
                old(self).state_ptr + 1
            } else {
                old(self).state_ptr as int
            },
    {
        let ptr = self.state_ptr as usize;
        if ptr + 1 >= index.len() {
            return None;
        }
        let (init, update) = index[ptr];
        let (end, _) = index[ptr + 1];
        self.state_ptr = self.state_ptr + 1;
        Some((init, update - init, end - update))
    }
}

} // verus!
