//! The variate source: an ISAAC stream seeded once, from which the uniform,
//! Gaussian and polynomial variates are drawn.

use vstd::prelude::*;
use crate::isaac::{IsaacRng, IsaacState, advance, draw_spec, nth_draw, seeded_state, valid_state};

verus! {

/// The value `last` starts from, before any layer has been drawn.
pub const LAST_START: u32 = 0x63636363;

/// The seed of a generator made with `Default`.
pub const DEFAULT_SEED: u32 = 17;

/// The layer of a 256-layer ziggurat that a raw draw selects, given the
/// previous raw draw.
pub open spec fn layer_of(r: u32, last: u32) -> int {
    ((r ^ last) & 0xFFu32) as int
}

/// A seedable source of raw 32-bit draws and of ziggurat layer draws.
pub struct Ziggurat {
    rng: IsaacRng,
    last: u32,
}

impl View for Ziggurat {
    type V = IsaacState;

    closed spec fn view(&self) -> IsaacState {
        self.rng@
    }
}

impl Ziggurat {
    /// The raw draw that most recently selected a layer.
    pub closed spec fn last_draw(&self) -> u32 {
        self.last
    }

    /// A generator whose stream is the ISAAC stream keyed by `seed`.
    pub fn new(seed: u32) -> (r: Self)
        ensures
            r@ == seeded_state(seed),
            valid_state(r@),
            r.last_draw() == LAST_START,
    {
        let mut rng = IsaacRng::new();
        rng.seed(seed);
        Ziggurat { rng, last: LAST_START }
    }

    /// The next raw 32-bit draw of the stream.
    pub fn rand32(&mut self) -> (r: u32)
        requires
            valid_state(old(self)@),
        ensures
            valid_state(final(self)@),
            (final(self)@, r) == draw_spec(old(self)@),
            final(self).last_draw() == old(self).last_draw(),
    {
        self.rng.next_u32()
    }

    /// Two raw draws joined into 64 bits, the first as the high word: the
    /// integer that a uniform variate on `[0, 1)` is scaled from.
    pub fn rand64(&mut self) -> (r: u64)
        requires
            valid_state(old(self)@),
        ensures
            valid_state(final(self)@),
            r as int == nth_draw(old(self)@, 0) as int * 0x1_0000_0000 + nth_draw(old(self)@, 1) as int,
            final(self)@ == advance(old(self)@, 2),
            final(self).last_draw() == old(self).last_draw(),
    {
        let hi = self.rng.next_u32();
        let lo = self.rng.next_u32();
        assert(advance(old(self)@, 0) == old(self)@);
        assert(advance(old(self)@, 1) == draw_spec(old(self)@).0);
        assert(advance(old(self)@, 2) == draw_spec(advance(old(self)@, 1)).0);
        (hi as u64) * 0x1_0000_0000u64 + (lo as u64)
    }

    /// Draws a raw value and the ziggurat layer it selects together with the
    /// previous such draw; the raw value becomes the new previous draw.
    pub fn next_layer(&mut self) -> (r: (u32, usize))
        requires
            valid_state(old(self)@),
        ensures
            valid_state(final(self)@),
            (final(self)@, r.0) == draw_spec(old(self)@),
            r.1 as int == layer_of(r.0, old(self).last_draw()),
            r.1 < 256,
            final(self).last_draw() == r.0,
    {
        let r = self.rng.next_u32();
        let x = r ^ self.last;
        assert(x & 0xFFu32 < 256u32) by (bit_vector);
        let idx = (x & 0xFF) as usize;
        self.last = r;
        (r, idx)
    }
}

impl Default for Ziggurat {
    fn default() -> (r: Self)
        ensures
            r@ == seeded_state(DEFAULT_SEED),
            valid_state(r@),
            r.last_draw() == LAST_START,
    {
        Ziggurat::new(DEFAULT_SEED)
    }
}

/// The next raw 32-bit draw of `z`, as used for index shuffles.
pub fn rand32(z: &mut Ziggurat) -> (r: u32)
    requires
        valid_state(old(z)@),
    ensures
        valid_state(final(z)@),
        (final(z)@, r) == draw_spec(old(z)@),
        final(z).last_draw() == old(z).last_draw(),
{
    z.rand32()
}

} // verus!
