//! Colours: 24-bit hex values, their channels, the lookup that turns a hex
//! colour into three linear components, and the random jitter that gives
//! each wall vertex its own shade.

use rand::Rng;
use vstd::prelude::*;

use crate::scalar::Scalar;

verus! {

/// The jitter range used where a caller names none.
pub const DEFAULT_JITTER: u8 = 15;

/// The red channel of a hex colour: bits 16 to 23.
pub open spec fn red(color: u32) -> u8 {
    ((color / 0x1_0000) % 0x100) as u8
}

/// The green channel of a hex colour: bits 8 to 15.
pub open spec fn green(color: u32) -> u8 {
    ((color / 0x100) % 0x100) as u8
}

/// The blue channel of a hex colour: bits 0 to 7.
pub open spec fn blue(color: u32) -> u8 {
    (color % 0x100) as u8
}

/// The hex colour made of three channels.
pub open spec fn pack(r: u8, g: u8, b: u8) -> u32 {
    (r * 0x1_0000 + g * 0x100 + b) as u32
}

/// Splits a hex colour into its red, green and blue channels. Bits above the
/// lowest 24 are ignored.
pub fn hex_to_comp(color: u32) -> (comps: (u8, u8, u8))
    ensures
        comps.0 == red(color),
        comps.1 == green(color),
        comps.2 == blue(color),
{
    let r: u32 = (color & 0xFF0000) >> 16;
    let g: u32 = (color & 0x00FF00) >> 8;
    let b: u32 = color & 0x0000FF;
    assert(r == (color / 0x1_0000) % 0x100 && g == (color / 0x100) % 0x100 && b == color % 0x100)
        by (bit_vector)
        requires
            r == (color & 0xFF0000) >> 16,
            g == (color & 0x00FF00) >> 8,
            b == color & 0x0000FF,
    ;
    (r as u8, g as u8, b as u8)
}

/// Joins three channels into a hex colour.
pub fn comp_to_hex(r: u8, g: u8, b: u8) -> (color: u32)
    ensures
        color == pack(r, g, b),
{
    let color: u32 = (r as u32) << 16 | (g as u32) << 8 | b as u32;
    assert(color == r * 0x1_0000 + g * 0x100 + b) by (bit_vector)
        requires
            color == (r as u32) << 16 | (g as u32) << 8 | b as u32,
    ;
    color
}

/// What a hex colour decodes to through a 256-entry curve: each channel
/// picks the entry at its own value.
pub open spec fn decoded(color: u32, curve: [Scalar; 256]) -> Seq<Scalar> {
    seq![curve[red(color) as int], curve[green(color) as int], curve[blue(color) as int]]
}

/// Turns a hex colour into its three linear components, red first.
///
/// `curve` is the transfer curve as a table: entry `c` is the linear value
/// of the 8-bit channel value `c`. The table is the caller's; this function
/// only looks the channels up in it.
pub fn hex_as_srgb(color: u32, curve: &[Scalar; 256]) -> (rgb: [Scalar; 3])
    ensures
        rgb@ == decoded(color, *curve),
{
    let (r, g, b) = hex_to_comp(color);
    let rgb: [Scalar; 3] = [curve[r as usize], curve[g as usize], curve[b as usize]];
    assert(rgb@ =~= decoded(color, *curve));
    rgb
}

/// One outcome of the random draws behind a jitter: a magnitude and a
/// direction for each channel.
#[derive(Clone, Copy, Debug, PartialEq, Eq, Structural)]
pub struct JitterDraw {
    pub r_delta: u8,
    pub g_delta: u8,
    pub b_delta: u8,
    pub r_add: bool,
    pub g_add: bool,
    pub b_add: bool,
}

impl JitterDraw {
    /// Every magnitude lies below `upper`.
    pub open spec fn within(self, upper: u8) -> bool {
        self.r_delta < upper && self.g_delta < upper && self.b_delta < upper
    }
}

/// A channel moved by `delta`: upwards it stops at 255, downwards it wraps
/// around modulo 256.
pub open spec fn shifted(c: u8, delta: u8, add: bool) -> u8 {
    if add {
        if c + delta > 255 {
            255u8
        } else {
            (c + delta) as u8
        }
    } else {
        if delta <= c {
            (c - delta) as u8
        } else {
            (c - delta + 256) as u8
        }
    }
}

/// A hex colour with each channel moved as the draw says.
pub open spec fn jittered(color: u32, draw: JitterDraw) -> u32 {
    pack(
        shifted(red(color), draw.r_delta, draw.r_add),
        shifted(green(color), draw.g_delta, draw.g_add),
        shifted(blue(color), draw.b_delta, draw.b_add),
    )
}

/// Whether `out` can come out of jittering `color` with magnitudes below
/// `upper`.
pub open spec fn is_jitter_of(out: u32, color: u32, upper: u8) -> bool {
    exists|draw: JitterDraw| draw.within(upper) && out == #[trigger] jittered(color, draw)
}

/// Moves one channel: a saturating add when `add` is set, else a wrapping
/// subtract.
pub fn jitter_channel(c: u8, delta: u8, add: bool) -> (out: u8)
    ensures
        out == shifted(c, delta, add),
{
    if add {
        c.saturating_add(delta)
    } else {
        let flipped: u8 = delta ^ 0xFF;
        assert(flipped == 255 - delta) by (bit_vector)
            requires
                flipped == delta ^ 0xFF,
        ;
        c.wrapping_add(flipped.wrapping_add(1))
    }
}

/// Applies a given draw to a hex colour. Bits of `color` above the lowest
/// 24 are dropped.
pub fn apply_jitter(color: u32, draw: JitterDraw) -> (out: u32)
    ensures
        out == jittered(color, draw),
{
    let (r, g, b) = hex_to_comp(color);
    let r: u8 = jitter_channel(r, draw.r_delta, draw.r_add);
    let g: u8 = jitter_channel(g, draw.g_delta, draw.g_add);
    let b: u8 = jitter_channel(b, draw.b_delta, draw.b_add);
    comp_to_hex(r, g, b)
}

/// The generator that `rand::thread_rng` hands out. It is seeded, and from
/// time to time reseeded, by the operating system, and panics where the
/// system has no entropy to give.
#[verifier::external_type_specification]
#[verifier::external_body]
pub struct ExThreadRng(rand::rngs::ThreadRng);

/// `rand::thread_rng`: a handle to the calling thread's generator. Nothing
/// is claimed of it.
#[verifier::external_body]
fn thread_generator() -> rand::rngs::ThreadRng {
    rand::thread_rng()
}

/// `Rng::gen_range` on the half-open range `0..upper` of bytes: the value
/// drawn lies in the range, and nothing else is claimed of it. On an empty
/// range the call panics, so `upper` may not be zero.
#[verifier::external_body]
fn draw_below(rng: &mut rand::rngs::ThreadRng, upper: u8) -> (value: u8)
    requires
        upper > 0,
    ensures
        value < upper,
{
    rng.gen_range(0..upper)
}

/// `Rng::gen::<bool>`: a random truth value. Nothing is claimed of it.
#[verifier::external_body]
fn draw_flag(rng: &mut rand::rngs::ThreadRng) -> bool {
    rng.gen::<bool>()
}

/// Draws the three magnitudes, then the three directions, from the calling
/// thread's generator.
pub fn draw_jitter(upper: u8) -> (draw: JitterDraw)
    requires
        upper > 0,
    ensures
        draw.within(upper),
{
    let mut rng = thread_generator();
    let r_delta: u8 = draw_below(&mut rng, upper);
    let g_delta: u8 = draw_below(&mut rng, upper);
    let b_delta: u8 = draw_below(&mut rng, upper);
    let r_add: bool = draw_flag(&mut rng);
    let g_add: bool = draw_flag(&mut rng);
    let b_add: bool = draw_flag(&mut rng);
    JitterDraw { r_delta, g_delta, b_delta, r_add, g_add, b_add }
}

/// The jitter range that `delta` stands for.
pub open spec fn jitter_range(delta: Option<u8>) -> u8 {
    match delta {
        Some(d) => d,
        None => DEFAULT_JITTER,
    }
}

/// Perturbs a hex colour at random: each channel moves by a magnitude below
/// `delta` (15 where none is given), upwards saturating at 255 or downwards
/// wrapping modulo 256. Every call draws anew.
///
/// A range of zero holds no magnitude to draw, so `delta` may not be
/// `Some(0)`.
pub fn jitter_color(color: u32, delta: Option<u8>) -> (out: u32)
    requires
        jitter_range(delta) > 0,
    ensures
        is_jitter_of(out, color, jitter_range(delta)),
{
    let upper: u8 = match delta {
        Some(d) => d,
        None => DEFAULT_JITTER,
    };
    let draw = draw_jitter(upper);
    apply_jitter(color, draw)
}

/// Packing three channels and splitting the result gives the channels back,
/// and the packed colour has 24 bits.
pub proof fn lemma_pack_channels(r: u8, g: u8, b: u8)
    ensures
        pack(r, g, b) < 0x100_0000,
        red(pack(r, g, b)) == r,
        green(pack(r, g, b)) == g,
        blue(pack(r, g, b)) == b,
{
    let v: int = r * 0x1_0000 + g * 0x100 + b;
    assert(pack(r, g, b) == v);
    assert(v / 0x1_0000 == r);
    assert(v / 0x100 == r * 0x100 + g);
    assert((r * 0x100 + g) % 0x100 == g);
    assert(v % 0x100 == b);
}

/// A jittered colour is a 24-bit colour whose channels are the moved
/// channels of the input.
pub proof fn lemma_jittered_channels(color: u32, draw: JitterDraw)
    ensures
        jittered(color, draw) < 0x100_0000,
        red(jittered(color, draw)) == shifted(red(color), draw.r_delta, draw.r_add),
        green(jittered(color, draw)) == shifted(green(color), draw.g_delta, draw.g_add),
        blue(jittered(color, draw)) == shifted(blue(color), draw.b_delta, draw.b_add),
{
    lemma_pack_channels(
        shifted(red(color), draw.r_delta, draw.r_add),
        shifted(green(color), draw.g_delta, draw.g_add),
        shifted(blue(color), draw.b_delta, draw.b_add),
    );
}

/// The upward path never passes 255 and never lowers a channel; the
/// downward path wraps past zero exactly when the magnitude exceeds the
/// channel.
pub proof fn lemma_shift_paths(c: u8, delta: u8)
    ensures
        c <= shifted(c, delta, true) <= 255,
        shifted(c, delta, true) == if c + delta <= 255 { c + delta } else { 255 },
        delta <= c ==> shifted(c, delta, false) == c - delta,
        delta > c ==> shifted(c, delta, false) == c - delta + 256,
        delta > c ==> shifted(c, delta, false) > c,
{
}

/// Whether `out` is `c` moved up by less than `upper` (cut at 255) or down
/// by less than `upper` (modulo 256).
pub open spec fn near(out: u8, c: u8, upper: u8) -> bool {
    exists|delta: u8, add: bool| delta < upper && out == #[trigger] shifted(c, delta, add)
}

/// Whatever is drawn, a jitter with range `upper` leaves each channel
/// within `upper` of where it was, counted modulo 256 on the way down and
/// cut at 255 on the way up.
pub proof fn lemma_jitter_stays_near(out: u32, color: u32, upper: u8)
    requires
        is_jitter_of(out, color, upper),
    ensures
        out < 0x100_0000,
        near(red(out), red(color), upper),
        near(green(out), green(color), upper),
        near(blue(out), blue(color), upper),
{
    let draw = choose|draw: JitterDraw|
        draw.within(upper) && out == #[trigger] jittered(color, draw);
    lemma_jittered_channels(color, draw);
}

} // verus!
