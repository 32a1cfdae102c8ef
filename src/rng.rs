//! The pool of seedable generators that the random syscalls draw from.
//!
//! A ChaCha8 generator is fully described by its 32-byte key and its
//! position in the key's word stream, so the pool holds those two values
//! and the stream itself is computed by `rand_chacha`.
use rand::Rng;
use rand_chacha::rand_core::SeedableRng;
use rand_chacha::ChaCha8Rng;
use std::collections::HashMap;
use vstd::prelude::*;

verus! {

broadcast use vstd::std_specs::hash::group_hash_axioms;

/// The key that `ChaCha8Rng::seed_from_u64(seed)` starts from.
pub uninterp spec fn chacha_seed_key(seed: u64) -> Seq<u8>;

/// The `u32` that a ChaCha8 generator with key `key` at word position `pos`
/// yields, and the position after it.
pub uninterp spec fn chacha_word(key: Seq<u8>, pos: u128) -> (u32, u128);

/// The value below `bound` that a ChaCha8 generator with key `key` at word
/// position `pos` samples uniformly, and the position after it.
pub uninterp spec fn chacha_below(key: Seq<u8>, pos: u128, bound: u32) -> (u32, u128);

/// Relies on `ChaCha8Rng::seed_from_u64` and `get_seed`: the key a seed expands to.
#[verifier::external_body]
fn seed_key(seed: u64) -> (r: [u8; 32])
    ensures
        r@ == chacha_seed_key(seed),
{
    ChaCha8Rng::seed_from_u64(seed).get_seed()
}

/// Relies on `ChaCha8Rng::from_entropy` and `get_seed`: a key drawn from
/// the operating system's entropy source.
#[verifier::external_body]
fn entropy_key() -> (r: [u8; 32]) {
    ChaCha8Rng::from_entropy().get_seed()
}

/// Relies on `ChaCha8Rng::from_seed`, `set_word_pos`, `Rng::gen::<u32>` and
/// `get_word_pos`: one word of the stream of `key` at `pos`.
#[verifier::external_body]
fn next_word(key: [u8; 32], pos: u128) -> (r: (u32, u128))
    ensures
        r == chacha_word(key@, pos),
{
    let mut rng = ChaCha8Rng::from_seed(key);
    rng.set_word_pos(pos);
    let value: u32 = rng.gen();
    (value, rng.get_word_pos())
}

/// Relies on `ChaCha8Rng::from_seed`, `set_word_pos`, `Rng::gen_range(0..bound)`
/// and `get_word_pos`: a uniform sample of `[0, bound)` drawn from the stream
/// of `key` at `pos`. `gen_range` panics on an empty range.
#[verifier::external_body]
fn next_below(key: [u8; 32], pos: u128, bound: u32) -> (r: (u32, u128))
    requires
        bound > 0,
    ensures
        r == chacha_below(key@, pos, bound),
        r.0 < bound,
{
    let mut rng = ChaCha8Rng::from_seed(key);
    rng.set_word_pos(pos);
    let value: u32 = rng.gen_range(0..bound);
    (value, rng.get_word_pos())
}

/// One generator: its key and its position in the key's stream.
#[derive(Clone, Copy)]
pub struct Generator {
    key: [u8; 32],
    pos: u128,
}

/// What a generator is, as values.
pub struct GenState {
    pub key: Seq<u8>,
    pub pos: u128,
}

impl View for Generator {
    type V = GenState;

    closed spec fn view(&self) -> GenState {
        GenState { key: self.key@, pos: self.pos }
    }
}

/// The generator that seeding with `seed` creates.
pub open spec fn seeded(seed: u64) -> GenState {
    GenState { key: chacha_seed_key(seed), pos: 0 }
}

/// Drawing `value` from generator `id` leads from the pool `before` to `after`.
pub open spec fn draw_step(before: Map<u32, GenState>, id: u32, after: Map<u32, GenState>, value: u32) -> bool {
    &&& before.contains_key(id)
    &&& value == chacha_word(before[id].key, before[id].pos).0
    &&& after == before.insert(
        id,
        GenState { key: before[id].key, pos: chacha_word(before[id].key, before[id].pos).1 },
    )
}

/// Drawing `value` below `bound` from generator `id` leads from `before` to `after`.
pub open spec fn ranged_step(
    before: Map<u32, GenState>,
    id: u32,
    bound: u32,
    after: Map<u32, GenState>,
    value: u32,
) -> bool {
    &&& before.contains_key(id)
    &&& value == chacha_below(before[id].key, before[id].pos, bound).0
    &&& value < bound
    &&& after == before.insert(
        id,
        GenState { key: before[id].key, pos: chacha_below(before[id].key, before[id].pos, bound).1 },
    )
}

/// Why a ranged draw was refused.
#[derive(Debug, Clone, Copy, PartialEq, Eq, Structural)]
pub enum DrawError {
    /// No generator has this id.
    NoGenerator(u32),
    /// The bound is zero, so the range is empty.
    EmptyRange,
}

/// Generators by id.
pub struct RngPool {
    generators: HashMap<u32, Generator>,
}

impl View for RngPool {
    type V = Map<u32, GenState>;

    closed spec fn view(&self) -> Map<u32, GenState> {
        Map::new(|k: u32| self.generators@.contains_key(k), |k: u32| self.generators@[k]@)
    }
}

impl RngPool {
    /// A pool holding generator `0`, keyed from the operating system's entropy.
    pub fn new() -> (r: RngPool)
        ensures
            r@.dom() == set![0u32],
            r@[0].pos == 0,
    {
        let mut generators: HashMap<u32, Generator> = HashMap::new();
        generators.insert(0, Generator { key: entropy_key(), pos: 0 });
        let r = RngPool { generators };
        assert(r@.dom() =~= set![0u32]);
        r
    }

    /// Creates or replaces generator `id`, seeded from `seed`.
    pub fn set_seed(&mut self, id: u32, seed: u64)
        ensures
            final(self)@ == old(self)@.insert(id, seeded(seed)),
    {
        let key = seed_key(seed);
        self.generators.insert(id, Generator { key, pos: 0 });
        assert(self@ =~= old(self)@.insert(id, seeded(seed)));
    }

    /// Draws a `u32` from generator `id`; `None` when there is no such generator.
    pub fn random_int(&mut self, id: u32) -> (r: Option<u32>)
        ensures
            !old(self)@.contains_key(id) ==> r is None && final(self)@ == old(self)@,
            old(self)@.contains_key(id) ==> r is Some && draw_step(
                old(self)@,
                id,
                final(self)@,
                r->0,
            ),
    {
        let g = match self.generators.get(&id) {
            Some(g) => *g,
            None => {
                return None;
            },
        };
        let (value, pos) = next_word(g.key, g.pos);
        self.generators.insert(id, Generator { key: g.key, pos });
        assert(self@ =~= old(self)@.insert(id, GenState { key: g.key@, pos }));
        Some(value)
    }

    /// Draws a value below `bound` from generator `id`.
    pub fn random_below(&mut self, id: u32, bound: u32) -> (r: Result<u32, DrawError>)
        ensures
            !old(self)@.contains_key(id) ==> r == Err::<u32, DrawError>(DrawError::NoGenerator(id))
                && final(self)@ == old(self)@,
            old(self)@.contains_key(id) && bound == 0 ==> r == Err::<u32, DrawError>(
                DrawError::EmptyRange,
            ) && final(self)@ == old(self)@,
            old(self)@.contains_key(id) && bound > 0 ==> r is Ok && ranged_step(
                old(self)@,
                id,
                bound,
                final(self)@,
                r->Ok_0,
            ),
    {
        let g = match self.generators.get(&id) {
            Some(g) => *g,
            None => {
                return Err(DrawError::NoGenerator(id));
            },
        };
        if bound == 0 {
            return Err(DrawError::EmptyRange);
        }
        let (value, pos) = next_below(g.key, g.pos, bound);
        self.generators.insert(id, Generator { key: g.key, pos });
        assert(self@ =~= old(self)@.insert(id, GenState { key: g.key@, pos }));
        Ok(value)
    }
}

/// A draw depends only on the state of the generator drawn from: two pools
/// whose generator `id` is the same draw the same value and leave it in the
/// same state.
pub proof fn draws_deterministic(
    a0: Map<u32, GenState>,
    a1: Map<u32, GenState>,
    va: u32,
    b0: Map<u32, GenState>,
    b1: Map<u32, GenState>,
    vb: u32,
    id: u32,
)
    requires
        a0.contains_key(id) && b0.contains_key(id) && a0[id] == b0[id],
        draw_step(a0, id, a1, va),
        draw_step(b0, id, b1, vb),
    ensures
        va == vb,
        a1[id] == b1[id],
{
}

proof fn streams_agree_upto(
    seed: u64,
    id: u32,
    a: Seq<Map<u32, GenState>>,
    va: Seq<u32>,
    b: Seq<Map<u32, GenState>>,
    vb: Seq<u32>,
    k: int,
)
    requires
        0 <= k <= va.len(),
        a.len() == va.len() + 1,
        b.len() == vb.len() + 1,
        va.len() == vb.len(),
        a[0].contains_key(id) && a[0][id] == seeded(seed),
        b[0].contains_key(id) && b[0][id] == seeded(seed),
        forall|i: int| 0 <= i < va.len() ==> draw_step(a[i], id, a[i + 1], va[i]),
        forall|i: int| 0 <= i < vb.len() ==> draw_step(b[i], id, b[i + 1], vb[i]),
    ensures
        a[k].contains_key(id) && b[k].contains_key(id) && a[k][id] == b[k][id],
        forall|j: int| 0 <= j < k ==> va[j] == vb[j],
    decreases k,
{
    if k > 0 {
        streams_agree_upto(seed, id, a, va, b, vb, k - 1);
        assert(draw_step(a[k - 1], id, a[k], va[k - 1]));
        assert(draw_step(b[k - 1], id, b[k], vb[k - 1]));
    }
}

/// Two runs that seed generator `id` with the same seed and then draw from
/// it the same number of times emit the same values.
pub proof fn seeded_draws_agree(
    seed: u64,
    id: u32,
    a: Seq<Map<u32, GenState>>,
    va: Seq<u32>,
    b: Seq<Map<u32, GenState>>,
    vb: Seq<u32>,
)
    requires
        a.len() == va.len() + 1,
        b.len() == vb.len() + 1,
        va.len() == vb.len(),
        a[0].contains_key(id) && a[0][id] == seeded(seed),
        b[0].contains_key(id) && b[0][id] == seeded(seed),
        forall|i: int| 0 <= i < va.len() ==> draw_step(a[i], id, a[i + 1], va[i]),
        forall|i: int| 0 <= i < vb.len() ==> draw_step(b[i], id, b[i + 1], vb[i]),
    ensures
        va == vb,
{
    streams_agree_upto(seed, id, a, va, b, vb, va.len() as int);
    assert(va =~= vb);
}

} // verus!
