//! The nonce generator: a strictly increasing stream of 64-bit integers seeded
//! from the wall clock.

use vstd::prelude::*;

verus! {

/// Nanoseconds in one second.
pub const NANOS_PER_SEC: i128 = 1_000_000_000;

/// The seed that a clock reading of `sec` seconds and `nsec` nanoseconds gives.
pub open spec fn seed_of(sec: int, nsec: int) -> int {
    sec * 1_000_000_000 + nsec
}

/// Whether `n` can be sent as a nonce, that is, whether it is a signed 64-bit integer.
pub open spec fn is_nonce(n: int) -> bool {
    i64::MIN <= n <= i64::MAX
}

/// One draw from a generator whose counter stands at `state`: the counter after
/// the draw and the nonce handed out. The counter moves, by exactly one, only
/// when the incremented value is a nonce; otherwise nothing is handed out.
pub open spec fn step(state: int) -> (int, Option<i64>) {
    if is_nonce(state + 1) {
        (state + 1, Some((state + 1) as i64))
    } else {
        (state, None)
    }
}

/// What `n` successive draws hand out, first draw first.
pub open spec fn draws(state: int, n: nat) -> Seq<Option<i64>>
    decreases n,
{
    if n == 0 {
        Seq::empty()
    } else {
        seq![step(state).1] + draws(step(state).0, (n - 1) as nat)
    }
}

/// Reads the wall clock through `time::get_time`: whole seconds since the Unix
/// epoch and the nanoseconds into that second. The reading differs from call to
/// call; the only claim is the range of the nanosecond part, which
/// `Timespec::new` asserts before the value is returned.
#[verifier::external_body]
fn wall_clock() -> (now: (i64, i32))
    ensures
        0 <= now.1 < 1_000_000_000,
{
    let t = time::get_time();
    (t.sec, t.nsec)
}

/// A nonce generator. Its view is the counter: the last value handed out, or
/// the seed as long as nothing was drawn.
pub struct Nonce {
    counter: i128,
}

impl View for Nonce {
    type V = int;

    closed spec fn view(&self) -> int {
        self.counter as int
    }
}

impl Nonce {
    /// A generator seeded with `sec * 1_000_000_000 + nsec`.
    pub fn from_timespec(sec: i64, nsec: i32) -> (nonce: Nonce)
        ensures
            nonce@ == seed_of(sec as int, nsec as int),
    {
        Nonce { counter: (sec as i128) * NANOS_PER_SEC + (nsec as i128) }
    }

    /// A generator seeded from the current wall-clock time. Nothing is known of
    /// the reading but that it is a time: some seconds and a nanosecond part
    /// below one second.
    pub fn new() -> (nonce: Nonce)
        ensures
            exists|sec: i64, nsec: i32|
                0 <= nsec < 1_000_000_000 && nonce@ == #[trigger] seed_of(sec as int, nsec as int),
    {
        let now = wall_clock();
        Nonce::from_timespec(now.0, now.1)
    }

    /// Increments the counter and returns the new value. The first draw already
    /// reflects one increment, so the seed itself is never handed out. Returns
    /// `None`, and leaves the counter alone, exactly when the incremented value
    /// is no signed 64-bit integer.
    ///
    /// The exclusive borrow is what keeps the stream strictly increasing under
    /// concurrent use: two draws cannot overlap.
    pub fn next(&mut self) -> (drawn: Option<i64>)
        ensures
            (final(self)@, drawn) == step(old(self)@),
    {
        if self.counter >= (i64::MIN as i128) - 1 && self.counter < i64::MAX as i128 {
            self.counter = self.counter + 1;
            Some(self.counter as i64)
        } else {
            None
        }
    }
}

/// `n` draws hand out `n` results.
pub proof fn lemma_draws_len(state: int, n: nat)
    ensures
        draws(state, n).len() == n,
    decreases n,
{
    if n > 0 {
        lemma_draws_len(step(state).0, (n - 1) as nat);
    }
}

/// Every nonce that is handed out is larger than the counter that the draws
/// started from: the seed itself never comes back.
pub proof fn lemma_draws_above_start(state: int, n: nat, i: int)
    requires
        0 <= i < n,
        draws(state, n)[i] is Some,
    ensures
        draws(state, n)[i]->0 > state,
    decreases n,
{
    if i > 0 {
        lemma_draws_len(step(state).0, (n - 1) as nat);
        lemma_draws_above_start(step(state).0, (n - 1) as nat, i - 1);
    }
}

/// Over any number of draws from one generator, the nonces handed out are
/// strictly increasing: a later draw is larger than every earlier one, so no
/// value occurs twice.
pub proof fn lemma_draws_strictly_increasing(state: int, n: nat, i: int, j: int)
    requires
        0 <= i < j < n,
        draws(state, n)[i] is Some,
        draws(state, n)[j] is Some,
    ensures
        draws(state, n)[i]->0 < draws(state, n)[j]->0,
    decreases n,
{
    lemma_draws_len(step(state).0, (n - 1) as nat);
    if i == 0 {
        lemma_draws_above_start(step(state).0, (n - 1) as nat, j - 1);
    } else {
        lemma_draws_strictly_increasing(step(state).0, (n - 1) as nat, i - 1, j - 1);
    }
}

} // verus!
