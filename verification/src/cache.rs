//! Answers that stay good for a short time, and a lock that only one change can hold.
use vstd::prelude::*;

verus! {

/// An answer and the moment, in milliseconds, at which it was stored.
pub struct TimedCache<T> {
    pub entry: Option<(u64, T)>,
}

/// Whether something stored at `stored_at` is still good at `now`.
pub open spec fn is_fresh(stored_at: u64, now: u64, ttl: u64) -> bool {
    now < stored_at + ttl && 0 < ttl
}

impl<T> TimedCache<T> {
    /// The answer that is still good at `now`.
    pub open spec fn answer(self, now: u64, ttl: u64) -> Option<T> {
        match self.entry {
            Some((stored_at, value)) => if is_fresh(stored_at, now, ttl) {
                Some(value)
            } else {
                None
            },
            None => None,
        }
    }

    pub fn new() -> (r: Self)
        ensures
            r.entry is None,
    {
        TimedCache { entry: None }
    }

    pub fn get(&self, now: u64, ttl: u64) -> (r: Option<&T>)
        ensures
            match r {
                Some(value) => self.answer(now, ttl) == Some(*value),
                None => self.answer(now, ttl) is None,
            },
    {
        match &self.entry {
            Some((stored_at, value)) => if now.saturating_sub(*stored_at) < ttl {
                Some(value)
            } else {
                None
            },
            None => None,
        }
    }

    pub fn store(&mut self, now: u64, value: T)
        ensures
            final(self).entry == Some((now, value)),
    {
        self.entry = Some((now, value));
    }

    pub fn invalidate(&mut self)
        ensures
            final(self).entry is None,
    {
        self.entry = None;
    }
}

/// What was stored is given back until its time is over, and then no more.
pub proof fn stored_answer_lives_for_its_time<T>(value: T, stored_at: u64, now: u64, ttl: u64)
    requires
        stored_at <= now,
    ensures
        (TimedCache { entry: Some((stored_at, value)) }).answer(now, ttl) == (if now - stored_at
            < ttl {
            Some(value)
        } else {
            None
        }),
{
}

/// A lock that refuses a second holder.
#[derive(Clone, Copy, Debug, PartialEq, Eq, Structural)]
pub struct WriteLock {
    pub held: bool,
}

impl WriteLock {
    pub fn new() -> (r: Self)
        ensures
            !r.held,
    {
        WriteLock { held: false }
    }

    /// Takes the lock, or says with `refusal` that it is taken.
    pub fn acquire(&mut self, refusal: &str) -> (r: Result<(), String>)
        ensures
            final(self).held,
            match r {
                Ok(()) => !old(self).held,
                Err(message) => old(self).held && message@ == refusal@,
            },
    {
        if self.held {
            return Err(refusal.to_owned());
        }
        self.held = true;
        Ok(())
    }

    pub fn release(&mut self)
        ensures
            !final(self).held,
    {
        self.held = false;
    }
}

/// What was stored last is given back as long as its time is not over, and nothing once it was
/// forgotten.
pub proof fn answers_are_kept_for_their_time<T>(
    cache: &mut TimedCache<T>,
    stored_at: u64,
    value: T,
    forgotten: &mut TimedCache<T>,
    now: u64,
    ttl: u64,
    r: Option<&T>,
    gone: Option<&T>,
)
    requires
        stored_at <= now,
        call_ensures(TimedCache::<T>::store, (cache, stored_at, value), ()),
        *old(forgotten) == *final(cache),
        call_ensures(TimedCache::<T>::invalidate, (forgotten,), ()),
        call_ensures(TimedCache::<T>::get, (final(cache), now, ttl), r),
        call_ensures(TimedCache::<T>::get, (final(forgotten), now, ttl), gone),
    ensures
        (r is Some) == (now - stored_at < ttl),
        r matches Some(kept) ==> *kept == value,
        gone is None,
{
}

/// A lock has one holder: it is refused while it is held and given again after its release.
pub proof fn locks_have_one_holder(
    first: &mut WriteLock,
    second: &mut WriteLock,
    freed: &mut WriteLock,
    third: &mut WriteLock,
    refusal: &str,
    a: Result<(), String>,
    b: Result<(), String>,
    c: Result<(), String>,
)
    requires
        !old(first).held,
        call_ensures(WriteLock::acquire, (first, refusal), a),
        *old(second) == *final(first),
        call_ensures(WriteLock::acquire, (second, refusal), b),
        *old(freed) == *final(second),
        call_ensures(WriteLock::release, (freed,), ()),
        *old(third) == *final(freed),
        call_ensures(WriteLock::acquire, (third, refusal), c),
    ensures
        a is Ok,
        b matches Err(message) && message@ == refusal@,
        c is Ok,
{
}

} // verus!
