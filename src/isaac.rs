//! The ISAAC pseudo-random generator (Bob Jenkins), with every operation
//! stated over a mathematical model of the generator's state.

use vstd::prelude::*;

verus! {

/// Number of words in the result and memory arrays, as a power of two.
pub const RAND_SIZL: usize = 8;

/// Number of words in the result and memory arrays.
pub const RAND_SIZE: usize = 256;

/// The constant the key schedule starts from.
pub const GOLDEN_RATIO: u32 = 0x9e3779b9;

/// Wrapping 32-bit addition, as the generator uses it throughout.
pub open spec fn wadd(x: u32, y: u32) -> u32 {
    x.wrapping_add(y)
}

/// One scrambling pass of the key schedule over eight words.
pub open spec fn mix_spec(t: Seq<u32>) -> Seq<u32>
    recommends
        t.len() == 8,
{
    let a = t[0] ^ ((t[1] << 11u32) as u32);
    let d = wadd(t[3], a);
    let b = wadd(t[1], t[2]);
    let b = b ^ (t[2] >> 2u32);
    let e = wadd(t[4], b);
    let c = wadd(t[2], d);
    let c = c ^ ((d << 8u32) as u32);
    let f = wadd(t[5], c);
    let d = wadd(d, e);
    let d = d ^ (e >> 16u32);
    let g = wadd(t[6], d);
    let e = wadd(e, f);
    let e = e ^ ((f << 10u32) as u32);
    let h = wadd(t[7], e);
    let f = wadd(f, g);
    let f = f ^ (g >> 4u32);
    let a = wadd(a, f);
    let g = wadd(g, h);
    let g = g ^ ((h << 8u32) as u32);
    let b = wadd(b, g);
    let h = wadd(h, a);
    let h = h ^ (a >> 9u32);
    let c = wadd(c, h);
    let a = wadd(a, b);
    seq![a, b, c, d, e, f, g, h]
}

/// Scrambles eight words of the key schedule.
fn mix(t: [u32; 8]) -> (r: [u32; 8])
    ensures
        r@ == mix_spec(t@),
{
    let mut a = t[0];
    let mut b = t[1];
    let mut c = t[2];
    let mut d = t[3];
    let mut e = t[4];
    let mut f = t[5];
    let mut g = t[6];
    let mut h = t[7];
    a = a ^ (b << 11u32);
    d = d.wrapping_add(a);
    b = b.wrapping_add(c);
    b = b ^ (c >> 2u32);
    e = e.wrapping_add(b);
    c = c.wrapping_add(d);
    c = c ^ (d << 8u32);
    f = f.wrapping_add(c);
    d = d.wrapping_add(e);
    d = d ^ (e >> 16u32);
    g = g.wrapping_add(d);
    e = e.wrapping_add(f);
    e = e ^ (f << 10u32);
    h = h.wrapping_add(e);
    f = f.wrapping_add(g);
    f = f ^ (g >> 4u32);
    a = a.wrapping_add(f);
    g = g.wrapping_add(h);
    g = g ^ (h << 8u32);
    b = b.wrapping_add(g);
    h = h.wrapping_add(a);
    h = h ^ (a >> 9u32);
    c = c.wrapping_add(h);
    a = a.wrapping_add(b);
    let r = [a, b, c, d, e, f, g, h];
    assert(r@ =~= mix_spec(t@));
    r
}

/// What the generator holds, as mathematical values.
pub struct IsaacState {
    /// Results not yet handed out: they are `rsl[0..cnt]`, taken from the top.
    pub cnt: int,
    /// The current batch of results.
    pub rsl: Seq<u32>,
    /// The internal memory.
    pub mem: Seq<u32>,
    /// The three accumulators.
    pub a: u32,
    pub b: u32,
    pub c: u32,
}

/// A state that the generator can be in.
pub open spec fn valid_state(s: IsaacState) -> bool {
    &&& 0 <= s.cnt <= RAND_SIZE
    &&& s.rsl.len() == RAND_SIZE
    &&& s.mem.len() == RAND_SIZE
}

/// The memory word that a value selects through its bits 2 to 9.
pub open spec fn ind_spec(mem: Seq<u32>, x: u32) -> u32 {
    mem[((x >> 2u32) & 255u32) as int]
}

/// One generation step at position `i`, paired with position `j`.
pub open spec fn step_spec(s: IsaacState, i: int, j: int, mix: u32) -> IsaacState {
    let x = s.mem[i];
    let a = (s.a ^ mix).wrapping_add(s.mem[j]);
    let y = ind_spec(s.mem, x).wrapping_add(a).wrapping_add(s.b);
    let mem = s.mem.update(i, y);
    let r = ind_spec(mem, y >> 8u32).wrapping_add(x);
    IsaacState { cnt: s.cnt, rsl: s.rsl.update(i, r), mem, a, b: r, c: s.c }
}

/// The shift of the accumulator used at position `k`.
pub open spec fn shift_for(a: u32, k: int) -> u32 {
    if k % 4 == 0 {
        (a << 13u32) as u32
    } else if k % 4 == 1 {
        a >> 6u32
    } else if k % 4 == 2 {
        (a << 2u32) as u32
    } else {
        a >> 16u32
    }
}

/// The generation step at position `k` of a batch.
pub open spec fn round_spec(s: IsaacState, k: int) -> IsaacState {
    step_spec(s, k, (k + 128) % 256, shift_for(s.a, k))
}

/// The state after the first `n` steps of a batch.
pub open spec fn rounds(s: IsaacState, n: nat) -> IsaacState
    decreases n,
{
    if n == 0 {
        s
    } else {
        round_spec(rounds(s, (n - 1) as nat), n - 1)
    }
}

/// The state after a fresh batch of results has been generated.
pub open spec fn batch_spec(s: IsaacState) -> IsaacState {
    let c = s.c.wrapping_add(1);
    let b = s.b.wrapping_add(c);
    let t = rounds(IsaacState { cnt: s.cnt, rsl: s.rsl, mem: s.mem, a: s.a, b, c }, 256);
    IsaacState { cnt: RAND_SIZE as int, rsl: t.rsl, mem: t.mem, a: t.a, b: t.b, c: t.c }
}

/// The state after one draw, and the value drawn.
pub open spec fn draw_spec(s: IsaacState) -> (IsaacState, u32) {
    let s1 = if s.cnt == 0 {
        batch_spec(s)
    } else {
        s
    };
    (
        IsaacState { cnt: s1.cnt - 1, rsl: s1.rsl, mem: s1.mem, a: s1.a, b: s1.b, c: s1.c },
        s1.rsl[s1.cnt - 1],
    )
}

/// The state after `n` draws.
pub open spec fn advance(s: IsaacState, n: nat) -> IsaacState
    decreases n,
{
    if n == 0 {
        s
    } else {
        draw_spec(advance(s, (n - 1) as nat)).0
    }
}

/// The value of draw number `n` (from zero) out of state `s`.
pub open spec fn nth_draw(s: IsaacState, n: nat) -> u32 {
    draw_spec(advance(s, n)).1
}

/// The eight words the key schedule starts from: the golden ratio, scrambled four times.
pub open spec fn schedule_start() -> Seq<u32> {
    mix_spec(mix_spec(mix_spec(mix_spec(Seq::new(8, |_i: int| GOLDEN_RATIO)))))
}

/// Adds block `b` of `src` word by word into the eight schedule words.
pub open spec fn add_block(t: Seq<u32>, src: Seq<u32>, b: int) -> Seq<u32> {
    Seq::new(8, |k: int| t[k].wrapping_add(src[8 * b + k]))
}

/// The schedule words after `n` blocks of `src` have been folded in.
pub open spec fn schedule_after(t: Seq<u32>, src: Seq<u32>, n: nat) -> Seq<u32>
    decreases n,
{
    if n == 0 {
        t
    } else {
        mix_spec(add_block(schedule_after(t, src, (n - 1) as nat), src, n - 1))
    }
}

/// The memory that one pass of the key schedule writes: block `b` holds the
/// schedule words after block `b` of `src`.
pub open spec fn pass_memory(t: Seq<u32>, src: Seq<u32>) -> Seq<u32> {
    Seq::new(RAND_SIZE as nat, |k: int| schedule_after(t, src, (k / 8 + 1) as nat)[k % 8])
}

/// The memory after both passes of the key schedule over `key`.
pub open spec fn keyed_memory(key: Seq<u32>) -> Seq<u32> {
    let m1 = pass_memory(schedule_start(), key);
    let t1 = schedule_after(schedule_start(), key, 32);
    pass_memory(t1, m1)
}

/// The state of a generator keyed with `key`, its first batch generated.
pub open spec fn keyed_state(key: Seq<u32>) -> IsaacState {
    batch_spec(IsaacState { cnt: 0, rsl: key, mem: keyed_memory(key), a: 0, b: 0, c: 0 })
}

/// The state of a generator seeded with `seed`.
pub open spec fn seeded_state(seed: u32) -> IsaacState {
    keyed_state(Seq::new(RAND_SIZE as nat, |_i: int| seed))
}

/// The ISAAC generator.
pub struct IsaacRng {
    randcnt: usize,
    randrsl: [u32; RAND_SIZE],
    randmem: [u32; RAND_SIZE],
    randa: u32,
    randb: u32,
    randc: u32,
}

impl View for IsaacRng {
    type V = IsaacState;

    closed spec fn view(&self) -> IsaacState {
        IsaacState {
            cnt: self.randcnt as int,
            rsl: self.randrsl@,
            mem: self.randmem@,
            a: self.randa,
            b: self.randb,
            c: self.randc,
        }
    }
}

impl IsaacRng {
    /// A generator with all words zero and no results pending; `seed` keys it.
    pub fn new() -> (r: Self)
        ensures
            valid_state(r@),
            r@.cnt == 0,
            r@.rsl == Seq::new(RAND_SIZE as nat, |_i: int| 0u32),
            r@.mem == Seq::new(RAND_SIZE as nat, |_i: int| 0u32),
            r@.a == 0 && r@.b == 0 && r@.c == 0,
    {
        let r = IsaacRng {
            randcnt: 0,
            randrsl: [0u32; RAND_SIZE],
            randmem: [0u32; RAND_SIZE],
            randa: 0,
            randb: 0,
            randc: 0,
        };
        assert(r@.rsl =~= Seq::new(RAND_SIZE as nat, |_i: int| 0u32));
        assert(r@.mem =~= Seq::new(RAND_SIZE as nat, |_i: int| 0u32));
        r
    }

    /// The memory word that `x` selects.
    fn ind(&self, x: u32) -> (r: u32)
        ensures
            r == ind_spec(self@.mem, x),
    {
        let k = (x >> 2u32) & (RAND_SIZE as u32 - 1);
        assert((x >> 2u32) & 255u32 < 256u32) by (bit_vector);
        self.randmem[k as usize]
    }

    /// One generation step at position `i`, paired with position `j`.
    fn rngstep(&mut self, i: usize, j: usize, mix: u32)
        requires
            valid_state(old(self)@),
            i < RAND_SIZE,
            j < RAND_SIZE,
        ensures
            final(self)@ == step_spec(old(self)@, i as int, j as int, mix),
    {
        let x = self.randmem[i];
        self.randa = (self.randa ^ mix).wrapping_add(self.randmem[j]);
        let y = self.ind(x).wrapping_add(self.randa).wrapping_add(self.randb);
        self.randmem[i] = y;
        self.randrsl[i] = self.ind(y >> (RAND_SIZL as u32)).wrapping_add(x);
        self.randb = self.randrsl[i];
        assert(self@.rsl =~= step_spec(old(self)@, i as int, j as int, mix).rsl);
        assert(self@.mem =~= step_spec(old(self)@, i as int, j as int, mix).mem);
    }

    /// Generates a fresh batch of results.
    #[verifier::rlimit(40)]
    fn isaac(&mut self)
        requires
            valid_state(old(self)@),
        ensures
            valid_state(final(self)@),
            final(self)@ == batch_spec(old(self)@),
    {
        self.randc = self.randc.wrapping_add(1);
        self.randb = self.randb.wrapping_add(self.randc);
        let ghost s1 = self@;
        let mut i: usize = 0;
        let mut j: usize = RAND_SIZE / 2;
        while i < RAND_SIZE / 2
            invariant
                i % 4 == 0,
                i <= RAND_SIZE / 2,
                j == i + RAND_SIZE / 2,
                self@ == rounds(s1, i as nat),
                valid_state(self@),
            decreases RAND_SIZE / 2 - i,
        {
            self.rngstep(i, j, self.randa << 13u32);
            assert(self@ == rounds(s1, (i + 1) as nat));
            i += 1;
            j += 1;
            self.rngstep(i, j, self.randa >> 6u32);
            assert(self@ == rounds(s1, (i + 1) as nat));
            i += 1;
            j += 1;
            self.rngstep(i, j, self.randa << 2u32);
            assert(self@ == rounds(s1, (i + 1) as nat));
            i += 1;
            j += 1;
            self.rngstep(i, j, self.randa >> 16u32);
            assert(self@ == rounds(s1, (i + 1) as nat));
            i += 1;
            j += 1;
        }
        i = 0;
        j = RAND_SIZE / 2;
        while i < RAND_SIZE / 2
            invariant
                i % 4 == 0,
                i <= RAND_SIZE / 2,
                j == i + RAND_SIZE / 2,
                self@ == rounds(s1, j as nat),
                valid_state(self@),
            decreases RAND_SIZE / 2 - i,
        {
            self.rngstep(j, i, self.randa << 13u32);
            assert(self@ == rounds(s1, (j + 1) as nat));
            i += 1;
            j += 1;
            self.rngstep(j, i, self.randa >> 6u32);
            assert(self@ == rounds(s1, (j + 1) as nat));
            i += 1;
            j += 1;
            self.rngstep(j, i, self.randa << 2u32);
            assert(self@ == rounds(s1, (j + 1) as nat));
            i += 1;
            j += 1;
            self.rngstep(j, i, self.randa >> 16u32);
            assert(self@ == rounds(s1, (j + 1) as nat));
            i += 1;
            j += 1;
        }
        self.randcnt = RAND_SIZE;
    }

    /// Seeds the generator: every result word takes `seed`, then the key schedule runs.
    pub fn seed(&mut self, seed: u32)
        requires
            valid_state(old(self)@),
        ensures
            valid_state(final(self)@),
            final(self)@ == seeded_state(seed),
    {
        let mut i: usize = 0;
        while i < RAND_SIZE
            invariant
                i <= RAND_SIZE,
                valid_state(self@),
                forall|k: int| 0 <= k < i ==> self@.rsl[k] == seed,
            decreases RAND_SIZE - i,
        {
            self.randrsl[i] = seed;
            i += 1;
        }
        assert(self@.rsl =~= Seq::new(RAND_SIZE as nat, |_i: int| seed));
        self.init();
    }

    /// Folds block `i / 8` of the results (or of memory) into the schedule
    /// words, scrambles them and stores them in that block of memory.
    fn key_block(&mut self, t: [u32; 8], i: usize, from_memory: bool) -> (r: [u32; 8])
        requires
            valid_state(old(self)@),
            i % 8 == 0,
            i < RAND_SIZE,
        ensures
            valid_state(final(self)@),
            final(self)@.rsl == old(self)@.rsl,
            final(self)@.a == old(self)@.a && final(self)@.b == old(self)@.b,
            final(self)@.c == old(self)@.c && final(self)@.cnt == old(self)@.cnt,
            r@ == mix_spec(
                add_block(
                    t@,
                    if from_memory {
                        old(self)@.mem
                    } else {
                        old(self)@.rsl
                    },
                    (i / 8) as int,
                ),
            ),
            forall|k: int| i <= k < i + 8 ==> final(self)@.mem[k] == r@[k - i],
            forall|k: int|
                0 <= k < RAND_SIZE && !(i <= k < i + 8) ==> final(self)@.mem[k] == old(self)@.mem[k],
    {
        let ghost src = if from_memory {
            self@.mem
        } else {
            self@.rsl
        };
        let mut tmp = t;
        let mut j: usize = 0;
        while j < 8
            invariant
                i % 8 == 0,
                i < RAND_SIZE,
                j <= 8,
                src == if from_memory {
                    self@.mem
                } else {
                    self@.rsl
                },
                valid_state(self@),
                forall|k: int| 0 <= k < j ==> tmp@[k] == t@[k].wrapping_add(src[i + k]),
                forall|k: int| j <= k < 8 ==> tmp@[k] == t@[k],
            decreases 8 - j,
        {
            let w = if from_memory {
                self.randmem[i + j]
            } else {
                self.randrsl[i + j]
            };
            tmp[j] = tmp[j].wrapping_add(w);
            j += 1;
        }
        assert(tmp@ =~= add_block(t@, src, (i / 8) as int));
        tmp = mix(tmp);
        let ghost s0 = self@;
        j = 0;
        while j < 8
            invariant
                i % 8 == 0,
                i < RAND_SIZE,
                j <= 8,
                valid_state(self@),
                self@.rsl == s0.rsl,
                self@.a == s0.a && self@.b == s0.b && self@.c == s0.c && self@.cnt == s0.cnt,
                forall|k: int| i <= k < i + j ==> self@.mem[k] == tmp@[k - i],
                forall|k: int|
                    0 <= k < RAND_SIZE && !(i <= k < i + j) ==> self@.mem[k] == s0.mem[k],
            decreases 8 - j,
        {
            self.randmem[i + j] = tmp[j];
            j += 1;
        }
        tmp
    }

    /// One pass of the key schedule over all blocks, folding in the results
    /// or, on the second pass, the memory the first pass wrote.
    fn key_pass(&mut self, t0: [u32; 8], from_memory: bool) -> (t: [u32; 8])
        requires
            valid_state(old(self)@),
        ensures
            valid_state(final(self)@),
            final(self)@.rsl == old(self)@.rsl,
            final(self)@.a == old(self)@.a && final(self)@.b == old(self)@.b,
            final(self)@.c == old(self)@.c && final(self)@.cnt == old(self)@.cnt,
            final(self)@.mem == pass_memory(
                t0@,
                if from_memory {
                    old(self)@.mem
                } else {
                    old(self)@.rsl
                },
            ),
            t@ == schedule_after(
                t0@,
                if from_memory {
                    old(self)@.mem
                } else {
                    old(self)@.rsl
                },
                32,
            ),
    {
        let ghost src = if from_memory {
            self@.mem
        } else {
            self@.rsl
        };
        let ghost s0 = self@;
        let mut tmp = t0;
        let mut i: usize = 0;
        while i < RAND_SIZE
            invariant
                i % 8 == 0,
                i <= RAND_SIZE,
                valid_state(self@),
                self@.rsl == s0.rsl,
                self@.a == s0.a && self@.b == s0.b && self@.c == s0.c && self@.cnt == s0.cnt,
                src == if from_memory {
                    s0.mem
                } else {
                    s0.rsl
                },
                tmp@ == schedule_after(t0@, src, (i / 8) as nat),
                forall|k: int|
                    0 <= k < i ==> self@.mem[k] == #[trigger] schedule_after(
                        t0@,
                        src,
                        (k / 8 + 1) as nat,
                    )[k % 8],
                forall|k: int| i <= k < RAND_SIZE ==> self@.mem[k] == s0.mem[k],
            decreases RAND_SIZE - i,
        {
            let ghost cur = self@;
            let ghost cur_src = if from_memory {
                cur.mem
            } else {
                cur.rsl
            };
            assert(add_block(tmp@, cur_src, (i / 8) as int) =~= add_block(tmp@, src, (i / 8) as int));
            tmp = self.key_block(tmp, i, from_memory);
            assert(tmp@ == schedule_after(t0@, src, (i / 8 + 1) as nat));
            assert forall|k: int|
                0 <= k < i + 8 implies self@.mem[k] == #[trigger] schedule_after(
                    t0@,
                    src,
                    (k / 8 + 1) as nat,
                )[k % 8] by {
                if k >= i {
                    assert(k / 8 == i / 8);
                    assert(k % 8 == k - i);
                } else {
                    assert(self@.mem[k] == cur.mem[k]);
                }
            }
            i += 8;
        }
        assert(self@.mem =~= pass_memory(t0@, src));
        tmp
    }

    /// Runs the key schedule over the result words and generates the first batch.
    fn init(&mut self)
        requires
            valid_state(old(self)@),
        ensures
            valid_state(final(self)@),
            final(self)@ == keyed_state(old(self)@.rsl),
    {
        self.randa = 0;
        self.randb = 0;
        self.randc = 0;
        let mut tmp = [GOLDEN_RATIO; 8];
        assert(tmp@ =~= Seq::new(8, |_i: int| GOLDEN_RATIO));
        let mut n: usize = 0;
        while n < 4
            invariant
                n <= 4,
                n == 0 ==> tmp@ == Seq::new(8, |_i: int| GOLDEN_RATIO),
                n == 1 ==> tmp@ == mix_spec(Seq::new(8, |_i: int| GOLDEN_RATIO)),
                n == 2 ==> tmp@ == mix_spec(mix_spec(Seq::new(8, |_i: int| GOLDEN_RATIO))),
                n == 3 ==> tmp@ == mix_spec(mix_spec(mix_spec(Seq::new(8, |_i: int| GOLDEN_RATIO)))),
                n == 4 ==> tmp@ == schedule_start(),
            decreases 4 - n,
        {
            tmp = mix(tmp);
            n += 1;
        }
        let ghost key = self@.rsl;
        tmp = self.key_pass(tmp, false);
        let ghost m1 = self@.mem;
        assert(m1 == pass_memory(schedule_start(), key));
        let _ = self.key_pass(tmp, true);
        self.randcnt = 0;
        assert(self@.mem == keyed_memory(key));
        self.isaac();
    }

    /// The next 32-bit result; a fresh batch is generated when the current one is used up.
    pub fn next_u32(&mut self) -> (r: u32)
        requires
            valid_state(old(self)@),
        ensures
            valid_state(final(self)@),
            (final(self)@, r) == draw_spec(old(self)@),
    {
        if self.randcnt == 0 {
            self.isaac();
        }
        self.randcnt -= 1;
        self.randrsl[self.randcnt]
    }
}

impl Default for IsaacRng {
    /// A generator seeded with zero.
    fn default() -> (r: Self)
        ensures
            valid_state(r@),
            r@ == seeded_state(0),
    {
        let mut rng = Self::new();
        rng.seed(0);
        rng
    }
}

/// Two generators seeded alike hand out the same stream: every draw is a
/// function of the seed and of the number of draws before it.
pub proof fn lemma_same_seed_same_stream(a: IsaacState, b: IsaacState, seed: u32, n: nat)
    requires
        a == seeded_state(seed),
        b == seeded_state(seed),
    ensures
        forall|k: nat| k < n ==> nth_draw(a, k) == nth_draw(b, k),
        advance(a, n) == advance(b, n),
{
}

} // verus!
