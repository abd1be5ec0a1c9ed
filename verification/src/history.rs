use std::collections::VecDeque;

use vstd::prelude::*;

verus! {

/// How many entries at the back of `h` were saved after `frame`.
pub open spec fn trailing_after<T>(h: Seq<(u32, T)>, frame: u32) -> nat
    decreases h.len(),
{
    if h.len() == 0 {
        0
    } else if h.last().0 > frame {
        1 + trailing_after(h.drop_last(), frame)
    } else {
        0
    }
}

/// How many entries at the front of `h` were saved at or before `frame`.
pub open spec fn leading_at_most<T>(h: Seq<(u32, T)>, frame: u32) -> nat
    decreases h.len(),
{
    if h.len() == 0 {
        0
    } else if h[0].0 <= frame {
        1 + leading_at_most(h.drop_first(), frame)
    } else {
        0
    }
}

/// The frame of the newest entry, or 0 for an empty history.
pub open spec fn last_frame<T>(h: Seq<(u32, T)>) -> u32 {
    if h.len() == 0 {
        0
    } else {
        h.last().0
    }
}

/// The frame of the oldest entry, or 0 for an empty history.
pub open spec fn first_frame<T>(h: Seq<(u32, T)>) -> u32 {
    if h.len() == 0 {
        0
    } else {
        h[0].0
    }
}

/// The history left after rolling back to `frame`: the entries saved after
/// it are dropped from the back.
pub open spec fn restored_history<T>(h: Seq<(u32, T)>, frame: u32) -> Seq<(u32, T)> {
    h.take(h.len() - trailing_after(h, frame))
}

/// The value that rolling back to `frame` takes back: that of the newest
/// entry left, or `cur` when none is left.
pub open spec fn restored_value<T>(h: Seq<(u32, T)>, frame: u32, cur: T) -> T {
    let kept = restored_history(h, frame);
    if kept.len() > 0 {
        kept.last().1
    } else {
        cur
    }
}

/// The history left after discarding the entries saved at or before `frame`.
pub open spec fn discarded_history<T>(h: Seq<(u32, T)>, frame: u32) -> Seq<(u32, T)> {
    h.skip(leading_at_most(h, frame) as int)
}

pub proof fn lemma_trailing_after_bound<T>(h: Seq<(u32, T)>, frame: u32)
    ensures
        trailing_after(h, frame) <= h.len(),
    decreases h.len(),
{
    if h.len() > 0 && h.last().0 > frame {
        lemma_trailing_after_bound(h.drop_last(), frame);
    }
}

pub proof fn lemma_leading_at_most_bound<T>(h: Seq<(u32, T)>, frame: u32)
    ensures
        leading_at_most(h, frame) <= h.len(),
    decreases h.len(),
{
    if h.len() > 0 && h[0].0 <= frame {
        lemma_leading_at_most_bound(h.drop_first(), frame);
    }
}

proof fn lemma_restored_is_settled<T>(h: Seq<(u32, T)>, frame: u32)
    ensures
        trailing_after(restored_history(h, frame), frame) == 0,
    decreases h.len(),
{
    lemma_trailing_after_bound(h, frame);
    if h.len() > 0 && h.last().0 > frame {
        lemma_restored_is_settled(h.drop_last(), frame);
        assert(restored_history(h, frame) =~= restored_history(h.drop_last(), frame));
    } else if h.len() > 0 {
        assert(restored_history(h, frame) =~= h);
    }
}

/// Rolling back to the frame that was just saved keeps the whole history
/// and takes back the value saved with it, whatever the value is now.
pub proof fn lemma_restore_after_save<T>(h: Seq<(u32, T)>, frame: u32, saved: T, cur: T)
    ensures
        restored_history(h.push((frame, saved)), frame) == h.push((frame, saved)),
        restored_value(h.push((frame, saved)), frame, cur) == saved,
{
    assert(trailing_after(h.push((frame, saved)), frame) == 0);
    assert(h.push((frame, saved)).take(h.len() + 1 as int) =~= h.push((frame, saved)));
}

proof fn lemma_restore_drops_newer<T>(h: Seq<(u32, T)>, frame: u32)
    requires
        h.len() > 0,
        h.last().0 > frame,
    ensures
        restored_history(h, frame) == restored_history(h.drop_last(), frame),
{
    lemma_trailing_after_bound(h.drop_last(), frame);
    assert(restored_history(h, frame) =~= restored_history(h.drop_last(), frame));
}

/// Rolling back to a saved frame after any later saves (all of later
/// frames) drops those saves, keeps everything up to the saved frame, and
/// takes back the value saved with it, whatever the value is now.
pub proof fn lemma_restore_after_later_saves<T>(
    h: Seq<(u32, T)>,
    frame: u32,
    saved: T,
    later: Seq<(u32, T)>,
    cur: T,
)
    requires
        forall|i: int| 0 <= i < later.len() ==> #[trigger] later[i].0 > frame,
    ensures
        restored_history(h.push((frame, saved)) + later, frame) == h.push((frame, saved)),
        restored_value(h.push((frame, saved)) + later, frame, cur) == saved,
    decreases later.len(),
{
    let base = h.push((frame, saved));
    if later.len() == 0 {
        assert(base + later =~= base);
        lemma_restore_after_save(h, frame, saved, cur);
    } else {
        let full = base + later;
        assert(full.last() == later.last());
        assert(later[later.len() - 1].0 > frame);
        assert(full.drop_last() =~= base + later.drop_last());
        lemma_restore_drops_newer(full, frame);
        assert forall|i: int| 0 <= i < later.drop_last().len() implies #[trigger] later.drop_last()[i].0
            > frame by {
            assert(later.drop_last()[i] == later[i]);
        }
        lemma_restore_after_later_saves(h, frame, saved, later.drop_last(), cur);
    }
}

proof fn lemma_leading_run<T>(h: Seq<(u32, T)>, frame: u32)
    ensures
        leading_at_most(h, frame) <= h.len(),
        forall|i: int| 0 <= i < leading_at_most(h, frame) ==> (#[trigger] h[i]).0 <= frame,
        leading_at_most(h, frame) < h.len() ==> h[leading_at_most(h, frame) as int].0 > frame,
    decreases h.len(),
{
    if h.len() > 0 && h[0].0 <= frame {
        let t = h.drop_first();
        lemma_leading_run(t, frame);
        assert forall|i: int| 0 <= i < leading_at_most(h, frame) implies (#[trigger] h[i]).0 <= frame by {
            if i > 0 {
                assert(h[i] == t[i - 1]);
            }
        }
        if leading_at_most(h, frame) < h.len() {
            assert(h[leading_at_most(h, frame) as int] == t[leading_at_most(t, frame) as int]);
        }
    }
}

/// Discarding up to `frame` drops the leading run of entries saved at or
/// before `frame` and keeps the rest in order: what is left is `h` without
/// its first `k` entries, those `k` were all saved at or before `frame`,
/// and the first entry left (if any) was saved after it.
pub proof fn lemma_discard_drops_leading<T>(h: Seq<(u32, T)>, frame: u32)
    ensures
        ({
            let k = h.len() - discarded_history(h, frame).len();
            &&& 0 <= k <= h.len()
            &&& discarded_history(h, frame) == h.skip(k)
            &&& forall|i: int| 0 <= i < k ==> (#[trigger] h[i]).0 <= frame
            &&& k < h.len() ==> h[k].0 > frame
        }),
{
    lemma_leading_run(h, frame);
}

proof fn lemma_trailing_run<T>(h: Seq<(u32, T)>, frame: u32)
    ensures
        trailing_after(h, frame) <= h.len(),
        forall|i: int| h.len() - trailing_after(h, frame) <= i < h.len() ==> (#[trigger] h[i]).0 > frame,
        trailing_after(h, frame) < h.len() ==> h[h.len() - trailing_after(h, frame) - 1].0 <= frame,
    decreases h.len(),
{
    if h.len() > 0 && h.last().0 > frame {
        let t = h.drop_last();
        lemma_trailing_run(t, frame);
        assert forall|i: int| h.len() - trailing_after(h, frame) <= i < h.len() implies (#[trigger] h[i]).0
            > frame by {
            if i < h.len() - 1 {
                assert(h[i] == t[i]);
            }
        }
        if trailing_after(h, frame) < h.len() {
            assert(h[h.len() - trailing_after(h, frame) - 1] == t[t.len() - trailing_after(t, frame) - 1]);
        }
    }
}

/// Rolling back to `frame` drops the trailing run of entries saved after
/// `frame` and keeps the rest in order: what is left is the first `k`
/// entries of `h`, every entry after them was saved after `frame`, the last
/// one kept (if any) was saved at or before it, and the value taken back is
/// that of the last entry kept, or the current one when none is kept.
pub proof fn lemma_restore_drops_trailing<T>(h: Seq<(u32, T)>, frame: u32, cur: T)
    ensures
        ({
            let k = restored_history(h, frame).len();
            &&& k <= h.len()
            &&& restored_history(h, frame) == h.take(k as int)
            &&& forall|i: int| k <= i < h.len() ==> (#[trigger] h[i]).0 > frame
            &&& k > 0 ==> h[k - 1].0 <= frame
            &&& restored_value(h, frame, cur) == if k > 0 {
                h[k - 1].1
            } else {
                cur
            }
        }),
{
    lemma_trailing_run(h, frame);
}

/// Rolling back to the same frame twice is the same as rolling back once.
pub proof fn lemma_restore_twice<T>(h: Seq<(u32, T)>, frame: u32, cur: T)
    ensures
        restored_history(restored_history(h, frame), frame) == restored_history(h, frame),
        restored_value(restored_history(h, frame), frame, restored_value(h, frame, cur))
            == restored_value(h, frame, cur),
{
    lemma_restored_is_settled(h, frame);
    let h2 = restored_history(h, frame);
    assert(h2.take(h2.len() as int) =~= h2);
}

/// Rolls a history back to `frame`: drops the entries saved after it and
/// returns the value of the newest entry left, if any.
pub fn history_restore<T: Copy>(h: &mut VecDeque<(u32, T)>, frame: u32) -> (r: Option<T>)
    ensures
        final(h)@ == restored_history(old(h)@, frame),
        r is Some <==> final(h)@.len() > 0,
        r matches Some(v) ==> v == final(h)@.last().1,
{
    let ghost h0 = h@;
    proof {
        lemma_trailing_after_bound(h0, frame);
    }
    while h.len() > 0
        invariant
            h0.len() - trailing_after(h0, frame) <= h@.len() <= h0.len(),
            h@ == h0.take(h@.len() as int),
            trailing_after(h@, frame) + h0.len() - h@.len() == trailing_after(h0, frame),
        ensures
            h@ == restored_history(h0, frame),
            h@.len() == 0 || h@.last().0 <= frame,
        decreases h@.len(),
    {
        let n = h.len();
        let (fr, _) = h[n - 1];
        if fr > frame {
            let ghost before = h@;
            let _ = h.pop_back();
            proof {
                assert(before.drop_last() == h@);
                assert(h@ =~= h0.take(h@.len() as int));
            }
        } else {
            proof {
                assert(h@ =~= h0.take(h0.len() - trailing_after(h0, frame)));
            }
            break;
        }
    }
    let n = h.len();
    if n > 0 {
        let (_, v) = h[n - 1];
        Some(v)
    } else {
        None
    }
}

/// Drops the entries saved at or before `frame` from the front of a history.
pub fn history_discard<T>(h: &mut VecDeque<(u32, T)>, frame: u32)
    ensures
        final(h)@ == discarded_history(old(h)@, frame),
{
    let ghost h0 = h@;
    proof {
        lemma_leading_at_most_bound(h0, frame);
    }
    while h.len() > 0 && h[0].0 <= frame
        invariant
            h@ == h0.skip(h0.len() - h@.len()),
            h@.len() <= h0.len(),
            leading_at_most(h@, frame) + h0.len() - h@.len() == leading_at_most(h0, frame),
        decreases h@.len(),
    {
        let ghost before = h@;
        let _ = h.pop_front();
        proof {
            assert(h@ == before.drop_first());
            assert(h@ =~= h0.skip(h0.len() - h@.len()));
        }
    }
    proof {
        assert(leading_at_most(h@, frame) == 0);
    }
}

} // verus!
