//! The number streams behind the worklets' noise, and how often a collision rattles.

use vstd::prelude::*;

verus! {

/// What the rolling sound's stream starts from.
pub const ROLL_SEED: u32 = 0x1234_5678;

/// The seed of the first collision voice.
pub const FIRST_VOICE_SEED: u32 = 0x9e37_79b9;

/// What lies between the seeds of one voice and the next.
pub const VOICE_SEED_STEP: u32 = 0x6d2b_79f5;

// ---------------------------------------------------------------------------------------
// The rolling sound's stream

/// The number after `x`.
pub open spec fn shifted(x: u32) -> u32 {
    let a = x ^ (x << 13u32);
    let b = a ^ (a >> 17u32);
    b ^ (b << 5u32)
}

/// A stream of shifted numbers.
pub struct Xorshift {
    state: u32,
}

impl Xorshift {
    /// The number that was drawn last.
    pub closed spec fn state(&self) -> u32 {
        self.state
    }

    pub fn new(seed: u32) -> (r: Self)
        ensures
            r.state() == seed,
    {
        Xorshift { state: seed }
    }

    /// Draws a number.
    pub fn rand_u(&mut self) -> (r: u32)
        ensures
            r == shifted(old(self).state()),
            final(self).state() == r,
    {
        let mut x: u32 = self.state;
        x = x ^ (x << 13u32);
        x = x ^ (x >> 17u32);
        x = x ^ (x << 5u32);
        self.state = x;
        x
    }

    /// Draws a fraction: its numerator over two to the twenty-four.
    pub fn rand_f(&mut self) -> (r: u32)
        ensures
            r == shifted(old(self).state()) >> 8u32,
            r < 0x100_0000,
            final(self).state() == shifted(old(self).state()),
    {
        let x: u32 = self.rand_u();
        assert((x >> 8u32) < 0x100_0000) by (bit_vector);
        x >> 8u32
    }
}

/// The stream never gets stuck: from a number other than zero comes another such.
pub proof fn the_stream_never_dries_up(x: u32)
    requires
        x != 0,
    ensures
        shifted(x) != 0,
{
    let a = x ^ (x << 13u32);
    assert(a != 0) by (bit_vector)
        requires
            a == x ^ (x << 13u32),
            x != 0,
    ;
    let b = a ^ (a >> 17u32);
    assert(b != 0) by (bit_vector)
        requires
            b == a ^ (a >> 17u32),
            a != 0,
    ;
    assert(b ^ (b << 5u32) != 0) by (bit_vector)
        requires
            b != 0,
    ;
}

/// No two numbers have the same successor, so the stream cannot run into a loop that leaves
/// its start out.
pub proof fn successors_are_distinct(x: u32, y: u32)
    requires
        shifted(x) == shifted(y),
    ensures
        x == y,
{
    let (ax, ay) = (x ^ (x << 13u32), y ^ (y << 13u32));
    let (bx, by) = (ax ^ (ax >> 17u32), ay ^ (ay >> 17u32));
    assert(bx == by) by (bit_vector)
        requires
            bx ^ (bx << 5u32) == by ^ (by << 5u32),
    ;
    assert(ax == ay) by (bit_vector)
        requires
            ax ^ (ax >> 17u32) == ay ^ (ay >> 17u32),
    ;
    assert(x == y) by (bit_vector)
        requires
            x ^ (x << 13u32) == y ^ (y << 13u32),
    ;
}

// ---------------------------------------------------------------------------------------
// The collision sound's stream

/// The number after `x`.
pub open spec fn congruent(x: u32) -> u32 {
    ((1_664_525 * x + 1_013_904_223) % 0x1_0000_0000) as u32
}

/// A linear congruential stream.
pub struct Lcg {
    state: u32,
}

impl Lcg {
    /// The number that was drawn last.
    pub closed spec fn state(&self) -> u32 {
        self.state
    }

    pub fn new(seed: u32) -> (r: Self)
        ensures
            r.state() == seed,
    {
        Lcg { state: seed }
    }

    /// Draws a fraction between minus one and one: its numerator over two to the
    /// twenty-three.
    pub fn next_bi(&mut self) -> (r: i32)
        ensures
            final(self).state() == congruent(old(self).state()),
            r == (congruent(old(self).state()) >> 8u32) - 0x80_0000,
            -0x80_0000 <= r < 0x80_0000,
    {
        let x: u32 = self.state.wrapping_mul(1_664_525).wrapping_add(1_013_904_223);
        proof {
            round_the_end(self.state * 1_664_525, 1_013_904_223);
            assert(x == (self.state * 1_664_525 + 1_013_904_223) % 0x1_0000_0000);
        }
        self.state = x;
        assert((x >> 8u32) < 0x100_0000) by (bit_vector);
        (x >> 8u32) as i32 - 0x80_0000
    }
}

// ---------------------------------------------------------------------------------------
// Voices

/// Hands every collision voice a seed of its own.
pub struct VoiceSeeds {
    next: u32,
}

/// The seed of a voice, counted from zero.
pub open spec fn voice_seed(n: nat) -> u32 {
    ((FIRST_VOICE_SEED + n * VOICE_SEED_STEP) % 0x1_0000_0000) as u32
}

impl VoiceSeeds {
    /// The seed of the next voice.
    pub closed spec fn upcoming(&self) -> u32 {
        self.next
    }

    pub fn new() -> (r: Self)
        ensures
            r.upcoming() == voice_seed(0),
    {
        assert(0 * VOICE_SEED_STEP == 0) by (nonlinear_arith);
        VoiceSeeds { next: FIRST_VOICE_SEED }
    }

    /// Hands out a seed.
    pub fn take(&mut self) -> (r: u32)
        ensures
            r == old(self).upcoming(),
            final(self).upcoming() == (old(self).upcoming() + VOICE_SEED_STEP) % 0x1_0000_0000,
    {
        let seed: u32 = self.next;
        self.next = self.next.wrapping_add(VOICE_SEED_STEP);
        seed
    }
}

/// The seed after a voice's is the next voice's.
pub proof fn seeds_follow_each_other(n: nat)
    ensures
        voice_seed(n + 1) == (voice_seed(n) + VOICE_SEED_STEP) % 0x1_0000_0000,
{
    let (s, k) = (VOICE_SEED_STEP as int, n as int);
    assert((k + 1) * s == k * s + s) by (nonlinear_arith);
}

/// No two of four billion voices in a row share a seed, so that no two collisions sound the
/// same.
pub proof fn voices_differ(a: nat, b: nat)
    requires
        a < b < a + 0x1_0000_0000,
    ensures
        voice_seed(a) != voice_seed(b),
{
    if voice_seed(a) == voice_seed(b) {
        let s = VOICE_SEED_STEP as int;
        let (x, y) = (FIRST_VOICE_SEED + a * s, FIRST_VOICE_SEED + b * s);
        let q = y / 0x1_0000_0000 - x / 0x1_0000_0000;
        let d = b - a;
        assert(y - x == d * s) by (nonlinear_arith)
            requires
                x == FIRST_VOICE_SEED + a * s,
                y == FIRST_VOICE_SEED + b * s,
                d == b - a,
        ;
        assert(y - x == 0x1_0000_0000 * q);
        // The step times this number is one more than a multiple of two to the thirty-two.
        let inverse = 0xdc58aa5dint;
        let k = 0x5df72c67int;
        assert(s * inverse == 1 + k * 0x1_0000_0000) by (nonlinear_arith)
            requires
                s == 0x6d2b_79f5,
                inverse == 0xdc58aa5d,
                k == 0x5df72c67,
        ;
        assert(d * s * inverse == d + d * k * 0x1_0000_0000) by (nonlinear_arith)
            requires
                s * inverse == 1 + k * 0x1_0000_0000,
        ;
        assert(d == 0x1_0000_0000 * (q * inverse - d * k)) by (nonlinear_arith)
            requires
                d * s * inverse == d + d * k * 0x1_0000_0000,
                d * s == 0x1_0000_0000 * q,
        ;
        let m = q * inverse - d * k;
        assert(0 < d < 0x1_0000_0000);
        assert(false) by (nonlinear_arith)
            requires
                d == 0x1_0000_0000 * m,
                0 < d < 0x1_0000_0000,
        ;
    }
}

/// How often the balls touch again after a collision (millionths of full strength): never
/// when gentle, four times when hard.
pub open spec fn rattles(intensity: i64) -> int {
    let i = if intensity < 0 {
        0
    } else if intensity > 1_000_000 {
        1_000_000
    } else {
        intensity as int
    };
    i * 9 / 2_000_000
}

/// How often the balls touch again after a collision.
pub fn bounce_count(intensity: i64) -> (r: usize)
    ensures
        r == rattles(intensity),
        r <= 4,
{
    let i: u64 = if intensity < 0 {
        0
    } else if intensity > 1_000_000 {
        1_000_000
    } else {
        intensity as u64
    };
    (i * 9 / 2_000_000) as usize
}

/// A harder collision never rattles less.
pub proof fn harder_rattles_more(a: i64, b: i64)
    requires
        a <= b,
    ensures
        rattles(a) <= rattles(b) <= 4,
{
}

/// Every bit of a number reaches its successor by itself: the successor of two numbers taken
/// together bit by bit is that of each, taken together.
pub proof fn bits_are_shifted_by_themselves(x: u32, y: u32)
    ensures
        shifted(x ^ y) == shifted(x) ^ shifted(y),
{
    let (ax, ay) = (x ^ (x << 13u32), y ^ (y << 13u32));
    let a = (x ^ y) ^ ((x ^ y) << 13u32);
    assert(a == ax ^ ay) by (bit_vector)
        requires
            ax == x ^ (x << 13u32),
            ay == y ^ (y << 13u32),
            a == (x ^ y) ^ ((x ^ y) << 13u32),
    ;
    let (bx, by) = (ax ^ (ax >> 17u32), ay ^ (ay >> 17u32));
    let b = a ^ (a >> 17u32);
    assert(b == bx ^ by) by (bit_vector)
        requires
            a == ax ^ ay,
            bx == ax ^ (ax >> 17u32),
            by == ay ^ (ay >> 17u32),
            b == a ^ (a >> 17u32),
    ;
    assert(b ^ (b << 5u32) == (bx ^ (bx << 5u32)) ^ (by ^ (by << 5u32))) by (bit_vector)
        requires
            b == bx ^ by,
    ;
}

/// A bit among the lowest four of a number appears in its successor in its own place and five,
/// thirteen and eighteen places further up; one among the highest four appears in its own place and
/// seventeen and twelve further down.
pub proof fn bits_are_shifted_so_far(x: u32)
    ensures
        x < 16 ==> shifted(x) == x + x * 32 + x * 8192 + x * 262_144,
        x < 16 ==> shifted((x * 0x1000_0000) as u32) == x * 0x1000_0000 + x * 2048 + x * 65_536,
{
    let a = x ^ (x << 13u32);
    let b = a ^ (a >> 17u32);
    assert(x < 16 ==> b ^ (b << 5u32) == x + x * 32 + x * 8192 + x * 262_144) by (bit_vector)
        requires
            a == x ^ (x << 13u32),
            b == a ^ (a >> 17u32),
    ;
    let h = (x * 0x1000_0000) as u32;
    let c = h ^ (h << 13u32);
    let d = c ^ (c >> 17u32);
    if x < 16 {
        assert(h == x * 0x1000_0000);
        assert(d ^ (d << 5u32) == x * 0x1000_0000 + x * 2048 + x * 65_536) by (bit_vector)
            requires
                x < 16,
                h == x * 0x1000_0000,
                c == h ^ (h << 13u32),
                d == c ^ (c >> 17u32),
        ;
    }
}

/// The collision stream goes on by its own step: one more in a number is 1664525 more in its
/// successor, round the end of 32 bits, and zero is followed by 1013904223.
pub proof fn the_collision_stream_goes_on(x: u32)
    ensures
        congruent(0) == 1_013_904_223,
        x < u32::MAX ==> congruent((x + 1) as u32) == (congruent(x) + 1_664_525) % 0x1_0000_0000,
{
    round_the_end(1_664_525 * x + 1_013_904_223, 1_664_525);
}

proof fn round_the_end(m: int, step: int)
    ensures
        (m + step) % 0x1_0000_0000 == (m % 0x1_0000_0000 + step) % 0x1_0000_0000,
{
    vstd::arithmetic::div_mod::lemma_add_mod_noop_right(step, m, 0x1_0000_0000);
}

/// The seeds start from their first and go on by their step, round the end of 32 bits.
pub proof fn the_first_voice_has_the_first_seed()
    ensures
        voice_seed(0) == 0x9e37_79b9,
        voice_seed(1) == (0x9e37_79b9int + 0x6d2b_79f5) % 0x1_0000_0000,
{
    assert(0 * VOICE_SEED_STEP == 0 && 1 * VOICE_SEED_STEP == VOICE_SEED_STEP) by (nonlinear_arith);
}

/// A collision rattles four and a half times its strength, without the fraction, and a strength
/// counts from none to full.
pub proof fn rattles_are_counted_by_strength(intensity: i64)
    ensures
        intensity <= 0 ==> rattles(intensity) == 0,
        intensity >= 1_000_000 ==> rattles(intensity) == 4,
        0 <= intensity <= 1_000_000 ==> 2_000_000 * rattles(intensity) <= 9 * intensity < 2_000_000
            * (rattles(intensity) + 1),
{
}

} // verus!
