//! Pixel color output: sample averaging, gamma correction, and the
//! plain-text `r g b` line, with verified decimal formatting.

use vstd::prelude::*;
use crate::fx::{
    FX_ONE, fxs_div, fxs_sqrt, fxs_from_int, fx_div, fx_sqrt, fx_from_int,
    lemma_sqrt_floor_unique,
};
use crate::vec3::{Vec3, V3};
use crate::interval::{Interval, IntervalV, interval_clamp};

verus! {

/// Upper clamp of a gamma-corrected channel: `0.999` in the fixed-point
/// scale, so that a full channel maps to byte 255, never 256.
pub const INTENSITY_MAX: i64 = 65470;

pub open spec fn digit_char(d: int) -> char {
    if d == 0 {
        '0'
    } else if d == 1 {
        '1'
    } else if d == 2 {
        '2'
    } else if d == 3 {
        '3'
    } else if d == 4 {
        '4'
    } else if d == 5 {
        '5'
    } else if d == 6 {
        '6'
    } else if d == 7 {
        '7'
    } else if d == 8 {
        '8'
    } else {
        '9'
    }
}

/// Decimal digits of a non-negative number, most significant first.
pub open spec fn dec_str(n: int) -> Seq<char>
    recommends
        n >= 0,
    decreases n,
{
    if n < 10 {
        seq![digit_char(n)]
    } else {
        dec_str(n / 10).push(digit_char(n % 10))
    }
}

/// Square-root gamma transform (gamma 2); non-positive channels go to
/// zero.
pub open spec fn gamma_spec(x: int) -> int {
    if x <= 0 {
        0
    } else {
        fxs_sqrt(x)
    }
}

/// A gamma-corrected channel clamped into `[0, 0.999]` and scaled to a
/// byte in `[0, 255]` (truncating).
pub open spec fn byte_spec(x: int) -> int {
    let clamped = interval_clamp(IntervalV { min: 0, max: INTENSITY_MAX as int }, x);
    (clamped * 256) / (FX_ONE as int)
}

/// One output channel: the accumulated sample sum divided by the sample
/// count, gamma-corrected, clamped and scaled.
pub open spec fn channel_byte(sum: int, samples_per_pixel: int) -> int {
    byte_spec(gamma_spec(fxs_div(sum, fxs_from_int(samples_per_pixel))))
}

/// The full `r g b` output line of a pixel.
pub open spec fn write_color_spec(c: V3, samples_per_pixel: int) -> Seq<char> {
    dec_str(channel_byte(c.x, samples_per_pixel)) + seq![' '] + dec_str(
        channel_byte(c.y, samples_per_pixel),
    ) + seq![' '] + dec_str(channel_byte(c.z, samples_per_pixel)) + seq!['\n']
}

fn digit_str(d: u64) -> (r: &'static str)
    requires
        d < 10,
    ensures
        r@ == seq![digit_char(d as int)],
{
    if d == 0 {
        proof {
            reveal_strlit("0");
            assert("0"@ =~= seq![digit_char(0)]);
        }
        "0"
    } else if d == 1 {
        proof {
            reveal_strlit("1");
            assert("1"@ =~= seq![digit_char(1)]);
        }
        "1"
    } else if d == 2 {
        proof {
            reveal_strlit("2");
            assert("2"@ =~= seq![digit_char(2)]);
        }
        "2"
    } else if d == 3 {
        proof {
            reveal_strlit("3");
            assert("3"@ =~= seq![digit_char(3)]);
        }
        "3"
    } else if d == 4 {
        proof {
            reveal_strlit("4");
            assert("4"@ =~= seq![digit_char(4)]);
        }
        "4"
    } else if d == 5 {
        proof {
            reveal_strlit("5");
            assert("5"@ =~= seq![digit_char(5)]);
        }
        "5"
    } else if d == 6 {
        proof {
            reveal_strlit("6");
            assert("6"@ =~= seq![digit_char(6)]);
        }
        "6"
    } else if d == 7 {
        proof {
            reveal_strlit("7");
            assert("7"@ =~= seq![digit_char(7)]);
        }
        "7"
    } else if d == 8 {
        proof {
            reveal_strlit("8");
            assert("8"@ =~= seq![digit_char(8)]);
        }
        "8"
    } else {
        proof {
            reveal_strlit("9");
            assert("9"@ =~= seq![digit_char(9)]);
        }
        "9"
    }
}

/// Append the decimal digits of `n` to `out`.
pub fn push_decimal(out: &mut String, n: u64)
    ensures
        final(out)@ == old(out)@ + dec_str(n as int),
    decreases n,
{
    if n < 10 {
        let d = digit_str(n);
        out.append(d);
        proof {
            assert(final(out)@ =~= old(out)@ + dec_str(n as int));
        }
    } else {
        push_decimal(out, n / 10);
        let d = digit_str(n % 10);
        out.append(d);
        proof {
            assert(final(out)@ =~= old(out)@ + dec_str(n as int));
        }
    }
}

/// The decimal digits of `n`, as a fresh string.
pub fn decimal_string(n: u64) -> (s: String)
    ensures
        s@ == dec_str(n as int),
{
    let mut s = String::new();
    push_decimal(&mut s, n);
    proof {
        assert(s@ =~= dec_str(n as int));
    }
    s
}

/// Square-root gamma transform of one linear channel.
pub fn linear_to_gamma(linear_component: i64) -> (r: i64)
    ensures
        r as int == gamma_spec(linear_component as int),
{
    if linear_component <= 0 {
        0
    } else {
        fx_sqrt(linear_component)
    }
}

/// One channel of the output pixel, as a byte value in `[0, 255]`.
fn channel(sum: i64, samples_per_pixel: i32) -> (b: u64)
    requires
        samples_per_pixel >= 1,
    ensures
        b as int == channel_byte(sum as int, samples_per_pixel as int),
        b <= 255,
{
    let scale = fx_from_int(samples_per_pixel as i64);
    let averaged = fx_div(sum, scale);
    let g = linear_to_gamma(averaged);
    let intensity = Interval::new(0, INTENSITY_MAX);
    let clamped = intensity.clamp(g);
    ((clamped as u64) * 256) / 65536
}

/// The `r g b` line of one pixel: the three channels of the accumulated
/// sample sum, averaged over the sample count, gamma-corrected, clamped,
/// scaled to bytes, and separated by single spaces.
pub fn write_color(pixel_color: Vec3, samples_per_pixel: i32) -> (s: String)
    requires
        samples_per_pixel >= 1,
    ensures
        s@ == write_color_spec(pixel_color@, samples_per_pixel as int),
{
    let r = channel(pixel_color.x(), samples_per_pixel);
    let g = channel(pixel_color.y(), samples_per_pixel);
    let b = channel(pixel_color.z(), samples_per_pixel);
    let mut s = String::new();
    push_decimal(&mut s, r);
    s.append(" ");
    push_decimal(&mut s, g);
    s.append(" ");
    push_decimal(&mut s, b);
    s.append("\n");
    proof {
        reveal_strlit(" ");
        reveal_strlit("\n");
        assert(" "@ =~= seq![' ']);
        assert("\n"@ =~= seq!['\n']);
        assert(s@ =~= write_color_spec(pixel_color@, samples_per_pixel as int));
    }
    s
}

/// Number of newline characters in a sequence.
pub open spec fn newline_count(s: Seq<char>) -> nat
    decreases s.len(),
{
    if s.len() == 0 {
        0
    } else {
        newline_count(s.drop_last()) + (if s.last() == '\n' {
            1nat
        } else {
            0nat
        })
    }
}

pub proof fn lemma_newline_count_push(s: Seq<char>, c: char)
    ensures
        newline_count(s.push(c)) == newline_count(s) + (if c == '\n' {
            1nat
        } else {
            0nat
        }),
{
    assert(s.push(c).drop_last() =~= s);
    assert(s.push(c).last() == c);
}

pub proof fn lemma_newline_count_concat(a: Seq<char>, b: Seq<char>)
    ensures
        newline_count(a + b) == newline_count(a) + newline_count(b),
    decreases b.len(),
{
    if b.len() == 0 {
        assert(a + b =~= a);
    } else {
        lemma_newline_count_concat(a, b.drop_last());
        assert((a + b).drop_last() =~= a + b.drop_last());
        assert((a + b).last() == b.last());
    }
}

/// Decimal digit strings contain no newline.
pub proof fn lemma_dec_str_no_newline(n: int)
    requires
        n >= 0,
    ensures
        newline_count(dec_str(n)) == 0,
    decreases n,
{
    if n < 10 {
        assert(digit_char(n) != '\n');
        assert(seq![digit_char(n)].drop_last() =~= Seq::<char>::empty());
        assert(newline_count(Seq::<char>::empty()) == 0);
    } else {
        assert(digit_char(n % 10) != '\n');
        lemma_dec_str_no_newline(n / 10);
        lemma_newline_count_push(dec_str(n / 10), digit_char(n % 10));
    }
}

/// A channel byte is never negative.
pub proof fn lemma_channel_byte_nonneg(sum: int, samples_per_pixel: int)
    ensures
        channel_byte(sum, samples_per_pixel) >= 0,
{
    let clamped = interval_clamp(
        IntervalV { min: 0, max: INTENSITY_MAX as int },
        gamma_spec(fxs_div(sum, fxs_from_int(samples_per_pixel))),
    );
    assert(clamped >= 0);
    vstd::arithmetic::div_mod::lemma_div_pos_is_pos(clamped * 256, FX_ONE as int);
}

/// Every pixel line holds exactly one newline, at its end.
pub proof fn lemma_write_color_one_line(c: V3, samples_per_pixel: int)
    ensures
        newline_count(write_color_spec(c, samples_per_pixel)) == 1,
{
    lemma_channel_byte_nonneg(c.x, samples_per_pixel);
    lemma_channel_byte_nonneg(c.y, samples_per_pixel);
    lemma_channel_byte_nonneg(c.z, samples_per_pixel);
    let rs = dec_str(channel_byte(c.x, samples_per_pixel));
    let gs = dec_str(channel_byte(c.y, samples_per_pixel));
    let bs = dec_str(channel_byte(c.z, samples_per_pixel));
    lemma_dec_str_no_newline(channel_byte(c.x, samples_per_pixel));
    lemma_dec_str_no_newline(channel_byte(c.y, samples_per_pixel));
    lemma_dec_str_no_newline(channel_byte(c.z, samples_per_pixel));
    assert(newline_count(Seq::<char>::empty()) == 0);
    assert(seq![' '].drop_last() =~= Seq::<char>::empty());
    assert(seq!['\n'].drop_last() =~= Seq::<char>::empty());
    assert(newline_count(seq![' ']) == 0);
    assert(newline_count(seq!['\n']) == 1);
    lemma_newline_count_concat(rs, seq![' ']);
    lemma_newline_count_concat(rs + seq![' '], gs);
    lemma_newline_count_concat(rs + seq![' '] + gs, seq![' ']);
    lemma_newline_count_concat(rs + seq![' '] + gs + seq![' '], bs);
    lemma_newline_count_concat(rs + seq![' '] + gs + seq![' '] + bs, seq!['\n']);
}

/// A full-white pixel sum (`1` per channel per sample) maps to byte 255
/// for every sample count, and a black sum maps to byte 0.
pub proof fn lemma_gamma_endpoints(n: int)
    requires
        1 <= n <= 0x7fffffff,
    ensures
        channel_byte(n * (FX_ONE as int), n) == 255,
        channel_byte(0, n) == 0,
{
    let one = FX_ONE as int;
    let d = n * one;
    assert(one <= d <= 0x7fffffff * 65536) by (nonlinear_arith)
        requires
            1 <= n <= 0x7fffffff,
            one == 65536,
            d == n * one,
    ;
    assert(fxs_from_int(n) == d);
    // sum / samples is exactly one: (n * one) * one == one * (n * one).
    assert(d * one == one * d) by (nonlinear_arith);
    vstd::arithmetic::div_mod::lemma_div_multiples_vanish(one, d);
    assert(fxs_div(d, d) == one);
    // gamma of one is one.
    assert(65536int * 65536int == 4294967296int) by (nonlinear_arith);
    assert(65537int * 65537int == 4295098369int) by (nonlinear_arith);
    lemma_sqrt_floor_unique(4294967296nat, 65536nat);
    assert(fxs_sqrt(one) == 65536);
    // clamped to 0.999 and scaled: 65470 * 256 / 65536 == 255.
    assert(gamma_spec(fxs_div(d, fxs_from_int(n))) == 65536);
    assert(byte_spec(65536) == 255);
    // the black channel: 0 / anything is 0, and so is its byte.
    assert(fxs_div(0, d) == 0) by {
        assert(0int * one == 0) by (nonlinear_arith);
        vstd::arithmetic::div_mod::lemma_div_of0(d);
        assert(crate::fx::iabs(0) == 0);
    };
    assert(byte_spec(0) == 0);
}

} // verus!
