use vstd::prelude::*;

verus! {

/// A focus history never keeps more than this many entries.
pub const HISTORY_LIMIT: usize = 10;

/// The sequence after recording `x` at the front of the history `h`:
/// entries beyond the capacity are dropped from the back first, so the
/// result never holds more than `HISTORY_LIMIT` entries.
pub open spec fn spec_push_capped<T>(h: Seq<T>, x: T) -> Seq<T> {
    seq![x] + (if h.len() < HISTORY_LIMIT as int {
        h
    } else {
        h.take(HISTORY_LIMIT as int - 1)
    })
}

/// Record `x` at the front of `h`, evicting entries from the back so that
/// at most `HISTORY_LIMIT` remain afterwards.
pub fn push_capped<T>(h: &mut Vec<T>, x: T)
    ensures
        final(h)@ == spec_push_capped(old(h)@, x),
        final(h)@.len() <= HISTORY_LIMIT as int,
{
    proof {
        assert(old(h)@.take(old(h)@.len() as int) =~= old(h)@);
    }
    while h.len() >= HISTORY_LIMIT
        invariant
            h@.len() <= old(h)@.len(),
            h@ == old(h)@.take(h@.len() as int),
            h@.len() >= HISTORY_LIMIT as int - 1 || h@ == old(h)@,
        decreases h@.len(),
    {
        h.pop();
        proof {
            assert(h@ =~= old(h)@.take(h@.len() as int));
        }
    }
    h.insert(0, x);
    proof {
        assert(h@ =~= spec_push_capped(old(h)@, x));
    }
}

} // verus!
