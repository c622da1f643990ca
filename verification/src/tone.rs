use vstd::prelude::*;

verus! {

/// Clamp an integer to a closed interval.
pub open spec fn clamp_int(x: int, lo: int, hi: int) -> int {
    if x < lo {
        lo
    } else if x > hi {
        hi
    } else {
        x
    }
}

/// Contrast/brightness remapping of one channel value, in exact
/// fixed-point arithmetic with the multipliers given in thousandths.
///
/// The channel is normalized to `[0, 1]`, remapped to
/// `clamp01(clamp01((v - 1/2) * c + 1/2) * b)` and rounded back to an
/// 8-bit value. The value `v - 1/2` is carried over the denominator
/// 510 000 (`2 * 255 * 1000`) and the brightness product over
/// 510 000 000; the final division rounds to nearest.
pub open spec fn adjust_channel_spec(p: int, contrast: int, brightness: int) -> int {
    let t = clamp_int((2 * p - 255) * contrast + 255000, 0, 510000);
    let u = clamp_int(t * brightness, 0, 510000000);
    (u + 1000000) / 2000000
}

/// The adjusted channel is itself an 8-bit value.
pub proof fn lemma_adjust_channel_in_range(p: int, contrast: int, brightness: int)
    ensures
        0 <= adjust_channel_spec(p, contrast, brightness) <= 255,
{
    let t = clamp_int((2 * p - 255) * contrast + 255000, 0, 510000);
    let u = clamp_int(t * brightness, 0, 510000000);
    assert(0 <= (u + 1000000) / 2000000 <= 255) by (nonlinear_arith)
        requires 0 <= u <= 510000000;
}

/// Neutral multipliers leave every channel value unchanged: the tone
/// stage with contrast 1 and brightness 1 is the identity.
pub proof fn lemma_adjust_channel_identity(p: int)
    requires
        0 <= p <= 255,
    ensures
        adjust_channel_spec(p, 1000, 1000) == p,
{
    assert((2 * p - 255) * 1000 + 255000 == 2000 * p) by (nonlinear_arith);
    assert(clamp_int(2000 * p, 0, 510000) == 2000 * p);
    assert((2000 * p * 1000 + 1000000) / 2000000 == p) by (nonlinear_arith)
        requires 0 <= p <= 255;
}

/// A whole adjusted pixel buffer: the first three channels of each
/// RGBA pixel are remapped, the alpha channel is untouched.
pub open spec fn adjust_seq(s: Seq<u8>, contrast: int, brightness: int) -> Seq<u8> {
    Seq::new(
        s.len(),
        |i: int| if i % 4 == 3 {
            s[i]
        } else {
            adjust_channel_spec(s[i] as int, contrast, brightness) as u8
        },
    )
}

/// Neutral multipliers leave the whole buffer unchanged.
pub proof fn lemma_adjust_seq_identity(s: Seq<u8>)
    ensures
        adjust_seq(s, 1000, 1000) == s,
{
    assert forall|i: int| 0 <= i < s.len() implies adjust_seq(s, 1000, 1000)[i] == s[i] by {
        if i % 4 != 3 {
            lemma_adjust_channel_identity(s[i] as int);
        }
    }
    assert(adjust_seq(s, 1000, 1000) =~= s);
}

/// The executable tone remapping of one channel value.
pub fn adjust_channel(p: u8, contrast: i32, brightness: i32) -> (r: u8)
    ensures
        r as int == adjust_channel_spec(p as int, contrast as int, brightness as int),
{
    proof {
        assert(-0x1_0000_0000_0000 <= (2 * (p as int) - 255) * (contrast as int)
            <= 0x1_0000_0000_0000) by (nonlinear_arith)
            requires
                0 <= p <= 255,
                -0x8000_0000 <= contrast < 0x8000_0000;
    }
    let raw: i128 = (2 * (p as i128) - 255) * (contrast as i128) + 255000;
    let t: i128 = if raw < 0 {
        0
    } else if raw > 510000 {
        510000
    } else {
        raw
    };
    proof {
        assert(-(510000 * 0x8000_0000int) <= (t as int) * (brightness as int)
            <= 510000 * 0x8000_0000int) by (nonlinear_arith)
            requires
                0 <= t <= 510000,
                -0x8000_0000 <= brightness < 0x8000_0000;
    }
    let prod: i128 = t * (brightness as i128);
    let u: i128 = if prod < 0 {
        0
    } else if prod > 510000000 {
        510000000
    } else {
        prod
    };
    let r: i128 = (u + 1000000) / 2000000;
    proof {
        assert(0 <= (u + 1000000) / 2000000 <= 255) by (nonlinear_arith)
            requires 0 <= u <= 510000000;
    }
    r as u8
}

/// The executable tone remapping of a whole RGBA buffer.
pub fn adjust_rgba_data(data: &Vec<u8>, contrast: i32, brightness: i32) -> (r: Vec<u8>)
    ensures
        r@ == adjust_seq(data@, contrast as int, brightness as int),
{
    let ghost target = adjust_seq(data@, contrast as int, brightness as int);
    let mut out: Vec<u8> = Vec::new();
    let mut i: usize = 0;
    while i < data.len()
        invariant
            i <= data.len(),
            out@.len() == i,
            target == adjust_seq(data@, contrast as int, brightness as int),
            forall|j: int| 0 <= j < i ==> out@[j] == target[j],
        decreases data.len() - i,
    {
        let p = data[i];
        if i % 4 == 3 {
            out.push(p);
        } else {
            out.push(adjust_channel(p, contrast, brightness));
        }
        i = i + 1;
    }
    proof {
        assert(out@ =~= target);
    }
    out
}

} // verus!
