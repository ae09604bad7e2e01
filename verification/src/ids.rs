//! Asset identifiers.
//!
//! An asset identifier is an opaque 128-bit value, minted once at request
//! time and never reused. The low 64 bits are a per-allocator counter, which
//! makes every identifier minted by one allocator provably distinct from
//! every other identifier it mints; the high 64 bits are drawn at random so
//! that identifiers minted by unrelated allocators (for example by several
//! background workers) do not collide in practice.

use vstd::arithmetic::div_mod::{lemma_mod_multiples_vanish, lemma_small_mod};
use vstd::arithmetic::mul::lemma_mul_inequality;
use vstd::prelude::*;

verus! {

/// The number of identifier values reserved for one counter: the low
/// 64 bits of an identifier hold the counter, the rest the random draw.
pub const COUNTER_SPAN: u128 = 0x1_0000_0000_0000_0000;

/// The counter embedded in an identifier: its low 64 bits.
pub open spec fn id_low(id: u128) -> u64 {
    (id % COUNTER_SPAN) as u64
}

/// Relies on uuid::Uuid::new_v4 (via Uuid::as_u128): a freshly generated
/// random 128-bit value. Randomness promises nothing, so there is no
/// contract; uniqueness is established by the counter bits instead.
#[verifier::external_body]
fn fresh_random_bits() -> u128 {
    uuid::Uuid::new_v4().as_u128()
}

/// Mints fresh asset identifiers.
pub struct IdGen {
    count: u64,
}

impl IdGen {
    /// How many identifiers this allocator has minted.
    pub closed spec fn spec_count(self) -> u64 {
        self.count
    }

    pub fn new() -> (g: IdGen)
        ensures
            g.spec_count() == 0,
    {
        IdGen { count: 0 }
    }

    pub fn count(&self) -> (c: u64)
        ensures
            c == self.spec_count(),
    {
        self.count
    }

    /// Mints a fresh identifier. Its low 64 bits are the allocator's
    /// current counter, so identifiers from one allocator never repeat.
    pub fn mint(&mut self) -> (id: u128)
        requires
            old(self).spec_count() < u64::MAX,
        ensures
            id_low(id) == old(self).spec_count(),
            final(self).spec_count() == old(self).spec_count() + 1,
    {
        let draw = fresh_random_bits();
        let q: u128 = draw / COUNTER_SPAN;
        proof {
            assert(q < COUNTER_SPAN) by (nonlinear_arith)
                requires
                    q == draw / COUNTER_SPAN,
                    draw <= u128::MAX,
                    COUNTER_SPAN == 0x1_0000_0000_0000_0000u128,
            ;
            lemma_mul_inequality(q as int, COUNTER_SPAN - 1, COUNTER_SPAN as int);
        }
        let hi: u128 = q * COUNTER_SPAN;
        let id: u128 = hi + (self.count as u128);
        proof {
            lemma_mod_multiples_vanish(q as int, self.count as int, COUNTER_SPAN as int);
            lemma_small_mod(self.count as nat, COUNTER_SPAN as nat);
        }
        self.count = self.count + 1;
        id
    }
}

/// Two identifiers whose embedded counters differ are themselves distinct.
/// Together with the counter stepping in `mint`, this is what rules out
/// identifier collisions between independent load requests.
pub proof fn lemma_distinct_counters_distinct_ids(a: u128, b: u128)
    requires
        id_low(a) != id_low(b),
    ensures
        a != b,
{
}

} // verus!
