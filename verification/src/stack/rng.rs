//! A small deterministic random number generator for `drop_pct`:
//! xorshift64*, three shifts and a multiply. Not cryptographic; the only question is "should this frame vanish?", and a
//! seed makes the same run repeatable.

use vstd::prelude::*;

verus! {

/// One xorshift64 step.
pub open spec fn xorshift(x: u64) -> u64 {
    let a = x ^ (x << 13u64);
    let b = a ^ (a >> 7u64);
    b ^ (b << 17u64)
}

/// The multiplier xorshift64* scrambles each new state with.
pub const SCRAMBLE: u64 = 0x2545F4914F6CDD1D;

/// The 32-bit draw a state produces: the high half of the next state times
/// `SCRAMBLE`, modulo 2^64.
pub open spec fn draw(state: u64) -> u32 {
    (vstd::wrapping::u64_specs::wrapping_mul(xorshift(state), SCRAMBLE) >> 32u64) as u32
}

/// Whether `drop_pct` drops a frame, and the state after deciding: 0 never
/// drops and 100 or more always does, without drawing; anything between draws
/// once and drops when the draw modulo 100 is below the percentage.
pub open spec fn loss(pct: u8, state: u64) -> (bool, u64) {
    if pct == 0 {
        (false, state)
    } else if pct >= 100 {
        (true, state)
    } else {
        ((draw(state) % 100) < pct, xorshift(state))
    }
}

/// The state after `n` steps from `state`.
pub open spec fn after(state: u64, n: nat) -> u64
    decreases n,
{
    if n == 0 {
        state
    } else {
        xorshift(after(state, (n - 1) as nat))
    }
}

/// The first `n` draws from `state`, one per step.
pub open spec fn draws(state: u64, n: nat) -> Seq<u32>
    decreases n,
{
    if n == 0 {
        Seq::empty()
    } else {
        draws(state, (n - 1) as nat).push(draw(after(state, (n - 1) as nat)))
    }
}

pub struct SeededRng {
    state: u64,
}

impl SeededRng {
    /// The generator's state.
    pub closed spec fn state(&self) -> u64 {
        self.state
    }

    /// Seeds the generator; the low bit is forced on so the state is never zero.
    pub fn new(seed: u64) -> (r: Self)
        ensures
            r.state() == seed | 1,
    {
        SeededRng { state: seed | 1 }
    }

    /// Seeds the generator from the clock.
    pub fn from_entropy() -> (r: Self)
        ensures
            r.state() & 1 == 1,
    {
        let seed: u64 = match nanos_since_epoch() {
            Some(n) => n as u64,
            None => 1,
        };
        let r = SeededRng::new(seed);
        assert((seed | 1) & 1 == 1) by (bit_vector);
        r
    }

    /// The next 32 random bits.
    pub fn next_u32(&mut self) -> (r: u32)
        ensures
            final(self).state() == xorshift(old(self).state()),
            r == draw(old(self).state()),
    {
        let mut x = self.state;
        x = x ^ (x << 13u64);
        x = x ^ (x >> 7u64);
        x = x ^ (x << 17u64);
        self.state = x;
        (x.wrapping_mul(SCRAMBLE) >> 32u64) as u32
    }
}

/// Nanoseconds since the Unix epoch by the wall clock, through
/// `SystemTime::elapsed` on `UNIX_EPOCH`; `None` when the clock reads before
/// 1970. Nothing is promised of the value: it is the time.
#[verifier::external_body]
fn nanos_since_epoch() -> Option<u128> {
    match std::time::UNIX_EPOCH.elapsed() {
        Ok(d) => Some(d.as_nanos()),
        Err(_) => None,
    }
}

/// Whether to discard this frame at random, for `drop_pct` percent of frames.
pub fn drop_pct_hit(pct: u8, rng: &mut SeededRng) -> (r: bool)
    ensures
        (r, final(rng).state()) == loss(pct, old(rng).state()),
{
    if pct == 0 {
        return false;
    }
    if pct >= 100 {
        return true;
    }
    (rng.next_u32() % 100) < pct as u32
}

/// Zero percent never drops and a hundred always does, whatever the state.
pub proof fn lemma_loss_extremes(state: u64)
    ensures
        loss(0, state) == (false, state),
        loss(100, state) == (true, state),
{
}

/// A step never reaches the zero state from another one.
proof fn lemma_step_keeps_nonzero(x: u64)
    requires
        x != 0,
    ensures
        xorshift(x) != 0,
{
    assert(x != 0 ==> (x ^ (x << 13u64)) != 0) by (bit_vector);
    let a = x ^ (x << 13u64);
    assert(a != 0 ==> (a ^ (a >> 7u64)) != 0) by (bit_vector);
    let b = a ^ (a >> 7u64);
    assert(b != 0 ==> (b ^ (b << 17u64)) != 0) by (bit_vector);
}

/// The generator's run: the `k`-th of `n` draws (as `next_u32` returns them
/// one after another) is the draw of the state `k` steps on; seeds that agree
/// apart from the low bit give the same run of every length; and a seeded
/// state, odd and so never zero, never steps to zero.
pub proof fn lemma_seeded_runs_repeat(s: u64, t: u64, n: nat)
    ensures
        draws(s | 1, n).len() == n,
        forall|k: int| 0 <= k < n ==> #[trigger] draws(s | 1, n)[k] == draw(after(s | 1, k as nat)),
        (s | 1) == (t | 1) ==> draws(s | 1, n) == draws(t | 1, n) && after(s | 1, n) == after(t | 1, n),
        after(s | 1, n) != 0,
    decreases n,
{
    assert((s | 1) != 0) by (bit_vector);
    if n > 0 {
        let m = (n - 1) as nat;
        lemma_seeded_runs_repeat(s, t, m);
        lemma_step_keeps_nonzero(after(s | 1, m));
        assert forall|k: int| 0 <= k < n implies #[trigger] draws(s | 1, n)[k] == draw(after(s | 1, k as nat)) by {
            if k < m {
                assert(draws(s | 1, n)[k] == draws(s | 1, m)[k]);
            }
        }
    }
}

/// Losing is monotone in the percentage: whatever the state, a frame lost at
/// `p` percent is lost at any higher percentage too; and between the
/// extremes a frame is lost exactly when the draw modulo 100 is below the
/// percentage, at the cost of one step of the generator.
pub proof fn lemma_loss_grows_with_the_percentage(p: u8, q: u8, state: u64)
    ensures
        loss(p, state).0 && p <= q ==> loss(q, state).0,
        0 < p < 100 ==> loss(p, state) == ((draw(state) % 100) < p, xorshift(state)),
        p == 0 ==> !loss(p, state).0,
        p >= 100 ==> loss(p, state).0,
{
}

} // verus!
