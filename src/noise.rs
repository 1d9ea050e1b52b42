//! The permutation table behind 2D Perlin noise, shuffled from a seed.
use vstd::prelude::*;

verus! {

/// One step of the linear congruential generator that drives the shuffle.
pub open spec fn lcg_step(state: u32) -> u32 {
    state.wrapping_mul(1103515245).wrapping_add(12345)
}

pub open spec fn identity_table() -> Seq<u8> {
    Seq::new(256, |i: int| i as u8)
}

/// The table and the generator state after the first `k` steps of the
/// Fisher-Yates shuffle, which visits positions 255 down to 1 and swaps
/// position `i` with position `state % (i + 1)`.
#[verifier::opaque]
pub open spec fn shuffle(seed: u32, k: nat) -> (Seq<u8>, u32)
    decreases k,
{
    if k == 0 {
        (identity_table(), seed)
    } else {
        let prev = shuffle(seed, (k - 1) as nat);
        let i = 256 - k;
        let st = lcg_step(prev.1);
        let j = st as int % (i + 1);
        (prev.0.update(i, prev.0[j]).update(j, prev.0[i]), st)
    }
}

/// The shuffled table of a seed: a permutation of 0..=255.
pub open spec fn shuffled_table(seed: u32) -> Seq<u8> {
    shuffle(seed, 255).0
}

/// Byte `v` stands somewhere in the table.
pub open spec fn appears(t: Seq<u8>, v: u8) -> bool {
    exists|i: int| 0 <= i < t.len() && #[trigger] t[i] == v
}

/// Every byte value appears in the table.
pub open spec fn holds_every_byte(t: Seq<u8>) -> bool {
    forall|v: u8| #[trigger] appears(t, v)
}

/// Each step of the shuffle swaps two positions, so the table stays a
/// permutation of 0..=255: 256 entries, every byte value among them.
pub proof fn lemma_shuffle_is_permutation(seed: u32, k: nat)
    requires
        k <= 255,
    ensures
        shuffle(seed, k).0.len() == 256,
        holds_every_byte(shuffle(seed, k).0),
    decreases k,
{
    reveal(shuffle);
    if k == 0 {
        assert forall|v: u8| #[trigger] appears(identity_table(), v) by {
            assert(identity_table()[v as int] == v);
        }
    } else {
        lemma_shuffle_is_permutation(seed, (k - 1) as nat);
        let prev = shuffle(seed, (k - 1) as nat);
        let t = prev.0;
        let i = 256 - k;
        let st = lcg_step(prev.1);
        let j = st as int % (i + 1);
        let u = t.update(i, t[j]).update(j, t[i]);
        assert(u == shuffle(seed, k).0);
        assert forall|v: u8| #[trigger] appears(u, v) by {
            assert(appears(t, v));
            let m = choose|m: int| 0 <= m < t.len() && #[trigger] t[m] == v;
            if m == i {
                assert(u[j] == v);
            } else if m == j {
                assert(u[i] == v);
            } else {
                assert(u[m] == v);
            }
        }
    }
}

/// The shuffled table of `seed`.
fn shuffled(seed: u32) -> (p: [u8; 256])
    ensures
        p@ == shuffled_table(seed),
{
    let mut p = [0u8; 256];
    let mut i: usize = 0;
    while i < 256
        invariant
            i <= 256,
            p@.len() == 256,
            forall|k: int| 0 <= k < i ==> #[trigger] p@[k] == k as u8,
        decreases 256 - i,
    {
        p[i] = i as u8;
        i = i + 1;
    }
    assert(p@ =~= identity_table());
    proof {
        reveal(shuffle);
    }

    let mut state: u32 = seed;
    let mut i: usize = 255;
    while i > 0
        invariant
            i <= 255,
            p@.len() == 256,
            (p@, state) == shuffle(seed, (255 - i) as nat),
        decreases i,
    {
        proof {
            reveal(shuffle);
        }
        state = state.wrapping_mul(1103515245).wrapping_add(12345);
        let j: usize = (state % (i as u32 + 1)) as usize;
        let a = p[i];
        let b = p[j];
        p[i] = b;
        p[j] = a;
        i = i - 1;
    }
    p
}

/// Perlin noise generator.
pub struct PerlinNoise {
    permutation: [u8; 512],
}

impl PerlinNoise {
    /// The table of the generator: the shuffled table, twice over.
    pub closed spec fn table(&self) -> Seq<u8> {
        self.permutation@
    }

    /// A generator whose table is the shuffle of 0..=255 under `seed`,
    /// repeated so that lookups past 255 need no wrapping.
    pub fn new(seed: u32) -> (r: Self)
        ensures
            r.table() == shuffled_table(seed) + shuffled_table(seed),
            holds_every_byte(shuffled_table(seed)),
    {
        let p = shuffled(seed);
        proof {
            lemma_shuffle_is_permutation(seed, 255);
        }

        let mut permutation = [0u8; 512];
        let mut i: usize = 0;
        while i < 256
            invariant
                i <= 256,
                p@ == shuffled_table(seed),
                p@.len() == 256,
                permutation@.len() == 512,
                forall|k: int| 0 <= k < i ==> #[trigger] permutation@[k] == p@[k],
                forall|k: int| 256 <= k < 256 + i ==> #[trigger] permutation@[k] == p@[k - 256],
            decreases 256 - i,
        {
            permutation[i] = p[i];
            permutation[256 + i] = p[i];
            i = i + 1;
        }
        let r = PerlinNoise { permutation };
        assert(r.table() =~= shuffled_table(seed) + shuffled_table(seed)) by {
            assert forall|k: int| 256 <= k < 512 implies r.table()[k] == p@[k - 256] by {}
        }
        r
    }

    /// The table entry at `i`.
    pub fn permutation_at(&self, i: usize) -> (r: u8)
        requires
            i < 512,
        ensures
            r == self.table()[i as int],
    {
        self.permutation[i]
    }
}

} // verus!
