//! Deferred calls: `leviathan.api.schedule(fn)` runs on the next tick,
//! `defer_fn(ms, fn)` once its time has come, and coroutines that yielded
//! resume on later ticks. Times are milliseconds on the host's monotonic
//! clock.

use vstd::prelude::*;

verus! {

/// The pending calls of one plugin; `C` stands for a callback.
pub struct DeferredQueue<C> {
    pub immediate: Vec<C>,
    pub delayed: Vec<(u64, C)>,
    pub coroutines: Vec<C>,
}

/// A delayed call is due at `now`.
pub open spec fn is_due<C>(now: u64) -> spec_fn((u64, C)) -> bool {
    |e: (u64, C)| e.0 <= now
}

/// A delayed call is not due yet at `now`.
pub open spec fn not_due<C>(now: u64) -> spec_fn((u64, C)) -> bool {
    |e: (u64, C)| !(e.0 <= now)
}

pub open spec fn callbacks_of<C>(s: Seq<(u64, C)>) -> Seq<C> {
    s.map_values(|e: (u64, C)| e.1)
}

impl<C> DeferredQueue<C> {
    pub fn new() -> (r: Self)
        ensures
            r.immediate@.len() == 0,
            r.delayed@.len() == 0,
            r.coroutines@.len() == 0,
    {
        DeferredQueue { immediate: Vec::new(), delayed: Vec::new(), coroutines: Vec::new() }
    }

    /// Some call waits, of any kind.
    pub fn has_pending(&self) -> (r: bool)
        ensures
            r == (self.immediate@.len() > 0 || self.delayed@.len() > 0 || self.coroutines@.len() > 0),
    {
        self.immediate.len() > 0 || self.delayed.len() > 0 || self.coroutines.len() > 0
    }

    /// Take the calls for the next tick, oldest first.
    pub fn drain_immediate(&mut self) -> (r: Vec<C>)
        ensures
            r@ == old(self).immediate@,
            final(self).immediate@.len() == 0,
            final(self).delayed@ == old(self).delayed@,
            final(self).coroutines@ == old(self).coroutines@,
    {
        let mut taken: Vec<C> = Vec::new();
        std::mem::swap(&mut taken, &mut self.immediate);
        taken
    }

    /// Take the delayed calls due at `now`, in the order they were
    /// scheduled; the others stay, in order.
    pub fn drain_due(&mut self, now: u64) -> (r: Vec<C>)
        ensures
            r@ == callbacks_of(old(self).delayed@.filter(is_due::<C>(now))),
            final(self).delayed@ == old(self).delayed@.filter(not_due::<C>(now)),
            final(self).immediate@ == old(self).immediate@,
            final(self).coroutines@ == old(self).coroutines@,
    {
        let mut all: Vec<(u64, C)> = Vec::new();
        std::mem::swap(&mut all, &mut self.delayed);
        let ghost s = all@;
        let mut due: Vec<C> = Vec::new();
        let mut rest: Vec<(u64, C)> = Vec::new();
        let n = all.len();
        let mut k: usize = 0;
        while all.len() > 0
            invariant
                k + all@.len() == n,
                s.len() == n,
                all@ == s.subrange(k as int, n as int),
                due@ == callbacks_of(s.take(k as int).filter(is_due::<C>(now))),
                rest@ == s.take(k as int).filter(not_due::<C>(now)),
            decreases all@.len(),
        {
            let ghost before = all@;
            let e = all.remove(0);
            proof {
                assert(before[0] == s[k as int]);
                assert(s.take(k + 1).drop_last() =~= s.take(k as int));
                assert(s.take(k + 1).last() == s[k as int]);
                assert(all@ =~= s.subrange(k + 1, n as int));
                reveal(Seq::filter);
            }
            if e.0 <= now {
                let ghost pd = due@;
                due.push(e.1);
                proof {
                    assert(s.take(k + 1).filter(is_due::<C>(now)) =~= s.take(k as int).filter(is_due::<C>(now)).push(s[k as int]));
                    assert(s.take(k + 1).filter(not_due::<C>(now)) =~= s.take(k as int).filter(not_due::<C>(now)));
                    assert(due@ =~= callbacks_of(s.take(k + 1).filter(is_due::<C>(now))));
                }
            } else {
                rest.push(e);
                proof {
                    assert(s.take(k + 1).filter(is_due::<C>(now)) =~= s.take(k as int).filter(is_due::<C>(now)));
                    assert(s.take(k + 1).filter(not_due::<C>(now)) =~= s.take(k as int).filter(not_due::<C>(now)).push(s[k as int]));
                }
            }
            k += 1;
        }
        assert(s.take(n as int) =~= s);
        self.delayed = rest;
        due
    }
}


/// Draining the due calls loses none and duplicates none: the due and the
/// kept calls together are as many as the delayed calls were.
pub proof fn lemma_drain_due_partitions<C>(s: Seq<(u64, C)>, now: u64)
    ensures
        s.filter(is_due::<C>(now)).len() + s.filter(not_due::<C>(now)).len() == s.len(),
    decreases s.len(),
{
    reveal(Seq::filter);
    if s.len() > 0 {
        lemma_drain_due_partitions(s.drop_last(), now);
    }
}

} // verus!
