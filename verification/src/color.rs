//! Packed RGBA colors, the fixed-point lookup functions the blender uses,
//! source-over alpha blending and integer linear interpolation.
use vstd::prelude::*;

verus! {

/// The packed value of the four channels, laid out as `0xRR_GG_BB_AA`.
pub open spec fn pack_rgba(r: u8, g: u8, b: u8, a: u8) -> u32 {
    (r as int * 0x100_0000 + g as int * 0x1_0000 + b as int * 0x100 + a as int) as u32
}

/// A packed RGBA color stored in an `u32`, laid out as `0xRR_GG_BB_AA`.
#[derive(Debug, Clone, Copy, PartialEq, Eq, Structural)]
pub struct Color(pub u32);

impl Color {
    /// `0x00_00_00_00`
    pub fn clear() -> (c: Color)
        ensures c.0 == 0x00_00_00_00,
    {
        Color(0x00_00_00_00)
    }

    /// `0xFF_FF_FF_FF`
    pub fn white() -> (c: Color)
        ensures c.0 == 0xFF_FF_FF_FF,
    {
        Color(0xFF_FF_FF_FF)
    }

    /// `0xA9_A9_A9_FF`
    pub fn dark_gray() -> (c: Color)
        ensures c.0 == 0xA9_A9_A9_FF,
    {
        Color(0xA9_A9_A9_FF)
    }

    /// `0xD3_D3_D3_FF`
    pub fn light_gray() -> (c: Color)
        ensures c.0 == 0xD3_D3_D3_FF,
    {
        Color(0xD3_D3_D3_FF)
    }

    /// `0x00_00_00_FF`
    pub fn black() -> (c: Color)
        ensures c.0 == 0x00_00_00_FF,
    {
        Color(0x00_00_00_FF)
    }

    /// `0xFF_00_00_FF`
    pub fn red() -> (c: Color)
        ensures c.0 == 0xFF_00_00_FF,
    {
        Color(0xFF_00_00_FF)
    }

    /// `0x00_FF_00_FF`
    pub fn green() -> (c: Color)
        ensures c.0 == 0x00_FF_00_FF,
    {
        Color(0x00_FF_00_FF)
    }

    /// `0x00_00_FF_FF`
    pub fn blue() -> (c: Color)
        ensures c.0 == 0x00_00_FF_FF,
    {
        Color(0x00_00_FF_FF)
    }

    /// `0xFF_FF_00_FF`
    pub fn yellow() -> (c: Color)
        ensures c.0 == 0xFF_FF_00_FF,
    {
        Color(0xFF_FF_00_FF)
    }

    /// `0x00_FF_FF_FF`
    pub fn cyan() -> (c: Color)
        ensures c.0 == 0x00_FF_FF_FF,
    {
        Color(0x00_FF_FF_FF)
    }

    /// `0x00_80_80_FF`
    pub fn teal() -> (c: Color)
        ensures c.0 == 0x00_80_80_FF,
    {
        Color(0x00_80_80_FF)
    }

    /// `0x7F_00_FF_FF`
    pub fn violet() -> (c: Color)
        ensures c.0 == 0x7F_00_FF_FF,
    {
        Color(0x7F_00_FF_FF)
    }

    /// `0xFF_C0_CB_FF`
    pub fn pink() -> (c: Color)
        ensures c.0 == 0xFF_C0_CB_FF,
    {
        Color(0xFF_C0_CB_FF)
    }

    /// `0xFF_A5_00_FF`
    pub fn orange() -> (c: Color)
        ensures c.0 == 0xFF_A5_00_FF,
    {
        Color(0xFF_A5_00_FF)
    }

    /// `0x08_48_08_FF`
    pub fn dark_green() -> (c: Color)
        ensures c.0 == 0x08_48_08_FF,
    {
        Color(0x08_48_08_FF)
    }


    /// The red channel: the top byte.
    pub open spec fn spec_red(self) -> u8 {
        (self.0 / 0x100_0000) as u8
    }

    /// The green channel: the second byte from the top.
    pub open spec fn spec_green(self) -> u8 {
        ((self.0 / 0x1_0000) % 0x100) as u8
    }

    /// The blue channel: the second byte from the bottom.
    pub open spec fn spec_blue(self) -> u8 {
        ((self.0 / 0x100) % 0x100) as u8
    }

    /// The alpha channel: the bottom byte.
    pub open spec fn spec_alpha(self) -> u8 {
        (self.0 % 0x100) as u8
    }

    pub fn new(r: u8, g: u8, b: u8, a: u8) -> (c: Color)
        ensures
            c.0 == pack_rgba(r, g, b, a),
            c.spec_red() == r,
            c.spec_green() == g,
            c.spec_blue() == b,
            c.spec_alpha() == a,
    {
        let v: u32 = ((r as u32) << 24) | ((g as u32) << 16) | ((b as u32) << 8) | (a as u32);
        assert(v == (r as u32) * 0x100_0000 + (g as u32) * 0x1_0000 + (b as u32) * 0x100 + (a as u32)
            && v / 0x100_0000 == r as u32 && (v / 0x1_0000) % 0x100 == g as u32
            && (v / 0x100) % 0x100 == b as u32 && v % 0x100 == a as u32) by (bit_vector)
            requires v == ((r as u32) << 24) | ((g as u32) << 16) | ((b as u32) << 8) | (a as u32);
        Color(v)
    }

    pub fn r(&self) -> (r: u8)
        ensures r == self.spec_red(),
    {
        let v = self.0;
        assert((v >> 24) & 0xFF == v / 0x100_0000) by (bit_vector);
        ((self.0 >> 24) & 0xFF) as u8
    }

    pub fn g(&self) -> (g: u8)
        ensures g == self.spec_green(),
    {
        let v = self.0;
        assert((v >> 16) & 0xFF == (v / 0x1_0000) % 0x100) by (bit_vector);
        ((self.0 >> 16) & 0xFF) as u8
    }

    pub fn b(&self) -> (b: u8)
        ensures b == self.spec_blue(),
    {
        let v = self.0;
        assert((v >> 8) & 0xFF == (v / 0x100) % 0x100) by (bit_vector);
        ((self.0 >> 8) & 0xFF) as u8
    }

    pub fn a(&self) -> (a: u8)
        ensures a == self.spec_alpha(),
    {
        let v = self.0;
        assert(v & 0xFF == v % 0x100) by (bit_vector);
        (self.0 & 0xFF) as u8
    }

    pub fn rgb(&self) -> (t: (u8, u8, u8))
        ensures t == (self.spec_red(), self.spec_green(), self.spec_blue()),
    {
        (self.r(), self.g(), self.b())
    }

    pub fn rgba(&self) -> (t: (u8, u8, u8, u8))
        ensures t == (self.spec_red(), self.spec_green(), self.spec_blue(), self.spec_alpha()),
    {
        (self.r(), self.g(), self.b(), self.a())
    }

    /// The same color with its alpha channel replaced by `a`.
    pub fn with_alpha(&self, a: u8) -> (c: Color)
        ensures
            c.0 == pack_rgba(self.spec_red(), self.spec_green(), self.spec_blue(), a),
            c.spec_red() == self.spec_red(),
            c.spec_green() == self.spec_green(),
            c.spec_blue() == self.spec_blue(),
            c.spec_alpha() == a,
    {
        let v = self.0;
        let w: u32 = (v & 0xFFFF_FF00) | a as u32;
        assert(w == (v / 0x100_0000) * 0x100_0000 + ((v / 0x1_0000) % 0x100) * 0x1_0000
            + ((v / 0x100) % 0x100) * 0x100 + (a as u32)
            && w / 0x100_0000 == v / 0x100_0000 && (w / 0x1_0000) % 0x100 == (v / 0x1_0000) % 0x100
            && (w / 0x100) % 0x100 == (v / 0x100) % 0x100 && w % 0x100 == a as u32) by (bit_vector)
            requires w == (v & 0xFFFF_FF00) | a as u32;
        Color(w)
    }
}

/// A packed RGB color stored in an `u32`, laid out as `0xRR_GG_BB_00`.
///
/// Meant for places where an alpha channel does not apply.
pub struct ColorRgb(u32);

impl ColorRgb {
    /// The packed value.
    pub closed spec fn packed(self) -> u32 {
        self.0
    }

    pub open spec fn spec_red(self) -> u8 {
        (self.packed() / 0x100_0000) as u8
    }

    pub open spec fn spec_green(self) -> u8 {
        ((self.packed() / 0x1_0000) % 0x100) as u8
    }

    pub open spec fn spec_blue(self) -> u8 {
        ((self.packed() / 0x100) % 0x100) as u8
    }

    pub fn new(r: u8, g: u8, b: u8) -> (c: ColorRgb)
        ensures
            c.packed() == pack_rgba(r, g, b, 0),
            c.spec_red() == r,
            c.spec_green() == g,
            c.spec_blue() == b,
    {
        let v: u32 = ((r as u32) << 24) | ((g as u32) << 16) | ((b as u32) << 8);
        assert(v == (r as u32) * 0x100_0000 + (g as u32) * 0x1_0000 + (b as u32) * 0x100
            && v / 0x100_0000 == r as u32 && (v / 0x1_0000) % 0x100 == g as u32
            && (v / 0x100) % 0x100 == b as u32) by (bit_vector)
            requires v == ((r as u32) << 24) | ((g as u32) << 16) | ((b as u32) << 8);
        ColorRgb(v)
    }

    pub fn r(&self) -> (r: u8)
        ensures r == self.spec_red(),
    {
        let v = self.0;
        assert((v >> 24) & 0xFF == v / 0x100_0000) by (bit_vector);
        ((self.0 >> 24) & 0xFF) as u8
    }

    pub fn g(&self) -> (g: u8)
        ensures g == self.spec_green(),
    {
        let v = self.0;
        assert((v >> 16) & 0xFF == (v / 0x1_0000) % 0x100) by (bit_vector);
        ((self.0 >> 16) & 0xFF) as u8
    }

    pub fn b(&self) -> (b: u8)
        ensures b == self.spec_blue(),
    {
        let v = self.0;
        assert((v >> 8) & 0xFF == (v / 0x100) % 0x100) by (bit_vector);
        ((self.0 >> 8) & 0xFF) as u8
    }
}

impl From<ColorRgb> for Color {
    fn from(color: ColorRgb) -> (c: Color) {
        Color::new(color.r(), color.g(), color.b(), 255)
    }
}

impl vstd::std_specs::convert::FromSpecImpl<ColorRgb> for Color {
    open spec fn obeys_from_spec() -> bool {
        true
    }

    open spec fn from_spec(v: ColorRgb) -> Color {
        Color(pack_rgba(v.spec_red(), v.spec_green(), v.spec_blue(), 255))
    }
}

/// `a * b / 255`, rounded to the nearest integer.
pub open spec fn spec_mul_div_255(a: int, b: int) -> int {
    (2 * a * b + 255) / 510
}

/// `ba * (1 - ta / 255)`, rounded to the nearest integer: how much of the
/// bottom alpha shows through a top alpha of `ta`.
pub open spec fn spec_blend_alpha_mult(ta: int, ba: int) -> int {
    spec_mul_div_255(ba, 255 - ta)
}

/// `255 / x` in 8.8 fixed point, rounded to the nearest integer; `0` for `x == 0`.
pub open spec fn spec_reciprocal_255_over_x(x: int) -> int {
    if x == 0 {
        0
    } else {
        (130560 + x) / (2 * x)
    }
}

/// The share of the start channel value `c` at interpolation step `t` of 255.
pub open spec fn spec_lerp_lut_a(c: int, t: int) -> int {
    (c * (255 - t) + 128) / 255
}

/// The share of the end channel value `c` at interpolation step `t` of 255.
pub open spec fn spec_lerp_lut_b(c: int, t: int) -> int {
    (c * t + 128) / 255
}

proof fn lemma_mul_div_255_bounds(a: int, b: int)
    requires
        0 <= a <= 255,
        0 <= b <= 255,
    ensures
        0 <= spec_mul_div_255(a, b) <= b,
        0 <= spec_mul_div_255(a, b) <= a,
        spec_mul_div_255(a, b) == (2 * (a * b) + 255) / 510,
{
    assert(0 <= a * b <= 255 * b) by (nonlinear_arith)
        requires 0 <= a <= 255, 0 <= b <= 255;
    assert(a * b <= 255 * a) by (nonlinear_arith)
        requires 0 <= a <= 255, 0 <= b <= 255;
    assert(2 * a * b == 2 * (a * b)) by (nonlinear_arith);
    assert((2 * (a * b) + 255) / 510 <= b) by (nonlinear_arith)
        requires a * b <= 255 * b, 0 <= b;
    assert((2 * (a * b) + 255) / 510 <= a) by (nonlinear_arith)
        requires a * b <= 255 * a, 0 <= a;
    assert(0 <= (2 * (a * b) + 255) / 510) by (nonlinear_arith)
        requires 0 <= a * b;
}

/// `a * b / 255`, rounded.
pub fn mul_div_255(a: u8, b: u8) -> (r: u8)
    ensures
        r == spec_mul_div_255(a as int, b as int),
{
    proof {
        lemma_mul_div_255_bounds(a as int, b as int);
    }
    let aa: u32 = a as u32;
    let bb: u32 = b as u32;
    assert(aa * bb <= 65025) by (nonlinear_arith)
        requires aa <= 255, bb <= 255;
    let p: u32 = aa * bb;
    ((2 * p + 255) / 510) as u8
}

/// `ba * (1 - ta / 255)`, rounded.
pub fn blend_alpha_mult(ta: u8, ba: u8) -> (r: u8)
    ensures
        r == spec_blend_alpha_mult(ta as int, ba as int),
{
    mul_div_255(ba, 255 - ta)
}

/// `255 / x` in 8.8 fixed point, rounded; `0` for `x == 0`.
pub fn reciprocal_255_over_x(x: u8) -> (r: u16)
    ensures
        r == spec_reciprocal_255_over_x(x as int),
{
    if x == 0 {
        0
    } else {
        let xx: u32 = x as u32;
        assert((130560 + xx) / (2 * xx) <= 65280) by (nonlinear_arith)
            requires 1 <= xx <= 255;
        ((130560 + xx) / (2 * xx)) as u16
    }
}

/// The start channel's share at step `t` of 255.
pub fn lerp_lut_a(c: u8, t: u8) -> (r: u8)
    ensures
        r == spec_lerp_lut_a(c as int, t as int),
        r <= 255 - t,
{
    let cc: u32 = c as u32;
    let tt: u32 = t as u32;
    assert(cc * (255 - tt) <= 255 * (255 - tt)) by (nonlinear_arith)
        requires cc <= 255, tt <= 255;
    assert((cc * (255 - tt) + 128) / 255 <= 255 - tt) by (nonlinear_arith)
        requires cc * (255 - tt) <= 255 * (255 - tt), tt <= 255;
    ((cc * (255 - tt) + 128) / 255) as u8
}

/// The end channel's share at step `t` of 255.
pub fn lerp_lut_b(c: u8, t: u8) -> (r: u8)
    ensures
        r == spec_lerp_lut_b(c as int, t as int),
        r <= t,
{
    let cc: u32 = c as u32;
    let tt: u32 = t as u32;
    assert(cc * tt <= 255 * tt) by (nonlinear_arith)
        requires cc <= 255, tt <= 255;
    assert((cc * tt + 128) / 255 <= tt) by (nonlinear_arith)
        requires cc * tt <= 255 * tt, tt <= 255;
    ((cc * tt + 128) / 255) as u8
}

/// One color channel of a source-over blend of premultiplied colors: the
/// top channel plus what shows through of the bottom one,
/// `tc + bc * (1 - ta / 255)`, rounded, at most 255.
pub open spec fn spec_blend_channel(tc: int, bc: int, ta: int) -> int {
    let sum = tc + spec_mul_div_255(bc, 255 - ta);
    if sum > 255 {
        255
    } else {
        sum
    }
}

/// `top` drawn over `bottom` with source-over alpha compositing, both colors
/// premultiplied by their alpha.
pub open spec fn spec_blend_source_over(bottom: Color, top: Color) -> Color {
    let ta = top.spec_alpha() as int;
    let am = spec_blend_alpha_mult(ta, bottom.spec_alpha() as int);
    let out_a = ta + am;
    if out_a == 0 {
        Color(0)
    } else {
        Color(
            pack_rgba(
                spec_blend_channel(top.spec_red() as int, bottom.spec_red() as int, ta) as u8,
                spec_blend_channel(top.spec_green() as int, bottom.spec_green() as int, ta) as u8,
                spec_blend_channel(top.spec_blue() as int, bottom.spec_blue() as int, ta) as u8,
                out_a as u8,
            ),
        )
    }
}

/// One channel of a blend: `tc + bc * (1 - ta / 255)`, at most 255.
fn compute_channel(tc: u8, bc: u8, ta: u8) -> (r: u8)
    ensures
        r == spec_blend_channel(tc as int, bc as int, ta as int),
{
    tc.saturating_add(mul_div_255(bc, 255 - ta))
}

/// Draws `top` over `bottom` with source-over alpha compositing; both are
/// taken as premultiplied by their alpha, and so is the result.
///
/// Fully transparent over fully transparent gives [`Color::clear`].
pub fn blend_source_over(bottom: Color, top: Color) -> (c: Color)
    ensures
        c == spec_blend_source_over(bottom, top),
{
    let (tr, tg, tb, ta) = top.rgba();
    let (br, bg, bb, ba) = bottom.rgba();

    let alpha_mult: u16 = blend_alpha_mult(ta, ba) as u16;
    proof {
        lemma_mul_div_255_bounds(ba as int, 255 - ta);
    }
    let out_a: u16 = ta as u16 + alpha_mult;

    if out_a == 0 {
        return Color::clear();
    }
    let out_r = compute_channel(tr, br, ta);
    let out_g = compute_channel(tg, bg, ta);
    let out_b = compute_channel(tb, bb, ta);

    Color::new(out_r, out_g, out_b, out_a as u8)
}

/// The color at step `t_scaled` of 255 on the way from `a` to `b`.
pub open spec fn spec_lerp_scaled(a: Color, b: Color, t: int) -> Color {
    Color(
        pack_rgba(
            (spec_lerp_lut_a(a.spec_red() as int, t) + spec_lerp_lut_b(b.spec_red() as int, t)) as u8,
            (spec_lerp_lut_a(a.spec_green() as int, t) + spec_lerp_lut_b(b.spec_green() as int, t)) as u8,
            (spec_lerp_lut_a(a.spec_blue() as int, t) + spec_lerp_lut_b(b.spec_blue() as int, t)) as u8,
            (spec_lerp_lut_a(a.spec_alpha() as int, t) + spec_lerp_lut_b(b.spec_alpha() as int, t)) as u8,
        ),
    )
}

/// Linear interpolation between two colors, each channel on its own, at step
/// `t_scaled` of 255: `0` gives `a`, `255` gives `b`.
pub fn lerp_scaled(a: Color, b: Color, t_scaled: u8) -> (c: Color)
    ensures
        c == spec_lerp_scaled(a, b, t_scaled as int),
{
    let (a_r, a_g, a_b, a_a) = a.rgba();
    let (b_r, b_g, b_b, b_a) = b.rgba();

    let out_r: u8 = lerp_lut_a(a_r, t_scaled) + lerp_lut_b(b_r, t_scaled);
    let out_g: u8 = lerp_lut_a(a_g, t_scaled) + lerp_lut_b(b_g, t_scaled);
    let out_b: u8 = lerp_lut_a(a_b, t_scaled) + lerp_lut_b(b_b, t_scaled);
    let out_a: u8 = lerp_lut_a(a_a, t_scaled) + lerp_lut_b(b_a, t_scaled);

    Color::new(out_r, out_g, out_b, out_a)
}

/// Packing the four channels of a color gives the color back.
pub proof fn lemma_pack_channels(c: Color)
    ensures
        pack_rgba(c.spec_red(), c.spec_green(), c.spec_blue(), c.spec_alpha()) == c.0,
{
    let v = c.0;
    assert((v / 0x100_0000) * 0x100_0000 + ((v / 0x1_0000) % 0x100) * 0x1_0000
        + ((v / 0x100) % 0x100) * 0x100 + v % 0x100 == v) by (bit_vector);
}

/// Interpolation starts at `a` (step 0) and ends at `b` (step 255).
pub proof fn lemma_lerp_scaled_endpoints(a: Color, b: Color)
    ensures
        spec_lerp_scaled(a, b, 0) == a,
        spec_lerp_scaled(a, b, 255) == b,
{
    lemma_pack_channels(a);
    lemma_pack_channels(b);
}

/// One channel of an interpolation is the exact value
/// `(ca * (255 - t) + cb * t) / 255` to within one, and fits a channel.
proof fn lemma_lerp_channel(ca: int, cb: int, t: int)
    requires
        0 <= ca <= 255,
        0 <= cb <= 255,
        0 <= t <= 255,
    ensures
        0 <= spec_lerp_lut_a(ca, t) + spec_lerp_lut_b(cb, t) <= 255,
        ca * (255 - t) + cb * t - 254 <= 255 * (spec_lerp_lut_a(ca, t) + spec_lerp_lut_b(cb, t)),
        255 * (spec_lerp_lut_a(ca, t) + spec_lerp_lut_b(cb, t)) <= ca * (255 - t) + cb * t + 256,
{
    let na = ca * (255 - t);
    let nb = cb * t;
    assert(0 <= na <= 255 * (255 - t)) by (nonlinear_arith)
        requires 0 <= ca <= 255, 0 <= t <= 255, na == ca * (255 - t);
    assert(0 <= nb <= 255 * t) by (nonlinear_arith)
        requires 0 <= cb <= 255, 0 <= t <= 255, nb == cb * t;
    let qa = (na + 128) / 255;
    let qb = (nb + 128) / 255;
    assert(na + 128 - 254 <= 255 * qa <= na + 128);
    assert(nb + 128 - 254 <= 255 * qb <= nb + 128);
    assert(qa <= 255 - t);
    assert(qb <= t);
}

/// Interpolating two colors moves each channel linearly from the start
/// color to the end one: at step `t` of 255, every channel of the result is
/// `(a * (255 - t) + b * t) / 255` of the two colors' channels, to within one.
pub proof fn lemma_lerp_scaled_linear(a: Color, b: Color, t: u8)
    ensures
        ({
            let c = spec_lerp_scaled(a, b, t as int);
            let within = |x: u8, y: u8, z: u8|
                x * (255 - t) + y * t - 254 <= 255 * z && 255 * z <= x * (255 - t) + y * t + 256;
            &&& within(a.spec_red(), b.spec_red(), c.spec_red())
            &&& within(a.spec_green(), b.spec_green(), c.spec_green())
            &&& within(a.spec_blue(), b.spec_blue(), c.spec_blue())
            &&& within(a.spec_alpha(), b.spec_alpha(), c.spec_alpha())
        }),
{
    let ti = t as int;
    lemma_lerp_channel(a.spec_red() as int, b.spec_red() as int, ti);
    lemma_lerp_channel(a.spec_green() as int, b.spec_green() as int, ti);
    lemma_lerp_channel(a.spec_blue() as int, b.spec_blue() as int, ti);
    lemma_lerp_channel(a.spec_alpha() as int, b.spec_alpha() as int, ti);
    let r = (spec_lerp_lut_a(a.spec_red() as int, ti) + spec_lerp_lut_b(b.spec_red() as int, ti)) as u8;
    let g = (spec_lerp_lut_a(a.spec_green() as int, ti) + spec_lerp_lut_b(b.spec_green() as int, ti)) as u8;
    let bl = (spec_lerp_lut_a(a.spec_blue() as int, ti) + spec_lerp_lut_b(b.spec_blue() as int, ti)) as u8;
    let al = (spec_lerp_lut_a(a.spec_alpha() as int, ti) + spec_lerp_lut_b(b.spec_alpha() as int, ti)) as u8;
    lemma_unpack_rgba(r, g, bl, al);
}

/// The channels of a packed color are the ones it was packed from.
pub proof fn lemma_unpack_rgba(r: u8, g: u8, b: u8, a: u8)
    ensures
        Color(pack_rgba(r, g, b, a)).spec_red() == r,
        Color(pack_rgba(r, g, b, a)).spec_green() == g,
        Color(pack_rgba(r, g, b, a)).spec_blue() == b,
        Color(pack_rgba(r, g, b, a)).spec_alpha() == a,
{
    assert(((r as int * 0x100_0000 + g as int * 0x1_0000 + b as int * 0x100 + a as int) as u32 / 0x100_0000) as u8
        == r) by (bit_vector);
    assert((((r as int * 0x100_0000 + g as int * 0x1_0000 + b as int * 0x100 + a as int) as u32 / 0x1_0000)
        % 0x100) as u8 == g) by (bit_vector);
    assert((((r as int * 0x100_0000 + g as int * 0x1_0000 + b as int * 0x100 + a as int) as u32 / 0x100)
        % 0x100) as u8 == b) by (bit_vector);
    assert(((r as int * 0x100_0000 + g as int * 0x1_0000 + b as int * 0x100 + a as int) as u32 % 0x100) as u8
        == a) by (bit_vector);
}

/// Blending a fully transparent color over a fully transparent one gives
/// the clear color.
pub proof fn lemma_blend_transparent_over_transparent(bottom: Color, top: Color)
    requires
        bottom.spec_alpha() == 0,
        top.spec_alpha() == 0,
    ensures
        spec_blend_source_over(bottom, top) == Color(0),
{
}

/// The alpha of a blend is the top alpha plus what shows through of the bottom.
pub proof fn lemma_blend_alpha(bottom: Color, top: Color)
    ensures
        spec_blend_source_over(bottom, top).spec_alpha() == top.spec_alpha()
            + spec_blend_alpha_mult(top.spec_alpha() as int, bottom.spec_alpha() as int),
{
    let ta = top.spec_alpha() as int;
    let am = spec_blend_alpha_mult(ta, bottom.spec_alpha() as int);
    lemma_mul_div_255_bounds(bottom.spec_alpha() as int, 255 - ta);
    if ta + am != 0 {
        let r = spec_blend_channel(top.spec_red() as int, bottom.spec_red() as int, ta) as u8;
        let g = spec_blend_channel(top.spec_green() as int, bottom.spec_green() as int, ta) as u8;
        let b = spec_blend_channel(top.spec_blue() as int, bottom.spec_blue() as int, ta) as u8;
        let a = (ta + am) as u8;
        assert(((r as int * 0x100_0000 + g as int * 0x1_0000 + b as int * 0x100 + a as int) as u32) % 0x100 == a as u32) by (bit_vector);
    }
}

/// An opaque color drawn over any color replaces it.
pub proof fn lemma_blend_opaque_top(bottom: Color, top: Color)
    requires
        top.spec_alpha() == 255,
    ensures
        spec_blend_source_over(bottom, top) == top,
{
    lemma_mul_div_255_bounds(bottom.spec_alpha() as int, 0);
    lemma_mul_div_255_bounds(bottom.spec_red() as int, 0);
    lemma_mul_div_255_bounds(bottom.spec_green() as int, 0);
    lemma_mul_div_255_bounds(bottom.spec_blue() as int, 0);
    lemma_pack_channels(top);
}

/// A color with some opacity drawn over the clear color stays as it is.
pub proof fn lemma_blend_over_clear(top: Color)
    requires
        top.spec_alpha() > 0,
    ensures
        spec_blend_source_over(Color(0), top) == top,
{
    let z = Color(0);
    assert(z.spec_alpha() == 0 && z.spec_red() == 0 && z.spec_green() == 0 && z.spec_blue() == 0);
    let ta = top.spec_alpha() as int;
    lemma_mul_div_255_bounds(0, 255 - ta);
    lemma_pack_channels(top);
}

} // verus!
