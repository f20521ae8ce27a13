use vstd::arithmetic::div_mod::{lemma_div_is_ordered, lemma_div_multiples_vanish, lemma_div_pos_is_pos};
use vstd::math::{max, min};
use vstd::prelude::*;

verus! {

/// The fixed tone curve of the post-processor, tabulated for the 256 possible
/// normalized levels: a logarithmic stretch `255 * ln(1 + 3000 * x / 255) /
/// ln(1 + 3000)` followed by gamma correction `(x / 255)^1.5 * 255`, truncated
/// to 8 bits. Both stages are strictly policy: the stretch strength 3000 and
/// the exponent 1.5 are fixed.
pub open spec fn tone_curve_table() -> Seq<u8> {
    seq![
        0u8, 45, 64, 76, 85, 93, 99, 104, 109, 113, 117, 120, 124, 127, 130, 132, 135, 137,
        139, 141, 143, 145, 147, 149, 151, 152, 154, 155, 157, 158, 160, 161, 162, 163, 165,
        166, 167, 168, 169, 170, 171, 172, 173, 174, 175, 176, 177, 178, 179, 180, 181, 182,
        183, 183, 184, 185, 186, 186, 187, 188, 189, 189, 190, 191, 191, 192, 193, 193, 194,
        195, 195, 196, 197, 197, 198, 198, 199, 200, 200, 201, 201, 202, 202, 203, 203, 204,
        204, 205, 205, 206, 206, 207, 207, 208, 208, 209, 209, 210, 210, 211, 211, 212, 212,
        212, 213, 213, 214, 214, 215, 215, 215, 216, 216, 217, 217, 217, 218, 218, 219, 219,
        219, 220, 220, 220, 221, 221, 222, 222, 222, 223, 223, 223, 224, 224, 224, 225, 225,
        225, 226, 226, 226, 227, 227, 227, 228, 228, 228, 229, 229, 229, 230, 230, 230, 231,
        231, 231, 231, 232, 232, 232, 233, 233, 233, 233, 234, 234, 234, 235, 235, 235, 235,
        236, 236, 236, 236, 237, 237, 237, 238, 238, 238, 238, 239, 239, 239, 239, 240, 240,
        240, 240, 241, 241, 241, 241, 242, 242, 242, 242, 243, 243, 243, 243, 243, 244, 244,
        244, 244, 245, 245, 245, 245, 246, 246, 246, 246, 246, 247, 247, 247, 247, 247, 248,
        248, 248, 248, 249, 249, 249, 249, 249, 250, 250, 250, 250, 250, 251, 251, 251, 251,
        251, 252, 252, 252, 252, 252, 253, 253, 253, 253, 253, 254, 254, 254, 254, 254, 255,
    ]
}

/// The tone curve applied to one normalized level in `[0, 255]`.
pub open spec fn tone_curve(level: int) -> u8 {
    tone_curve_table()[level]
}

/// Smallest sample of a non-empty sequence (0 for the empty one).
pub open spec fn seq_min(s: Seq<i64>) -> int
    decreases s.len(),
{
    if s.len() == 0 {
        0
    } else if s.len() == 1 {
        s[0] as int
    } else {
        min(seq_min(s.drop_last()), s.last() as int)
    }
}

/// Largest sample of a non-empty sequence (0 for the empty one).
pub open spec fn seq_max(s: Seq<i64>) -> int
    decreases s.len(),
{
    if s.len() == 0 {
        0
    } else if s.len() == 1 {
        s[0] as int
    } else {
        max(seq_max(s.drop_last()), s.last() as int)
    }
}

/// The denominator of the min-max normalization. The floor of 1 (the integer
/// counterpart of the reference floor that guards the real-valued formula
/// against a zero spread) keeps the division defined on constant inputs.
pub open spec fn norm_denom(s: Seq<i64>) -> int {
    max(seq_max(s) - seq_min(s), 1)
}

/// Stage one of the pipeline: the sample `x` rescaled to a level in
/// `[0, 255]` by min-max normalization over the whole sample set.
pub open spec fn norm_level(s: Seq<i64>, x: int) -> int {
    (x - seq_min(s)) * 255 / norm_denom(s)
}

/// The full three-stage pipeline applied to sample `i` of `s`: min-max
/// normalization, then the tabulated log stretch and gamma correction.
pub open spec fn tone_mapped(s: Seq<i64>, i: int) -> u8 {
    tone_curve(norm_level(s, s[i] as int))
}

/// Every sample sits between the minimum and maximum of its sequence.
pub proof fn lemma_min_max_bounds(s: Seq<i64>, i: int)
    requires
        0 <= i < s.len(),
    ensures
        seq_min(s) <= s[i] as int <= seq_max(s),
    decreases s.len(),
{
    if s.len() > 1 && i < s.len() - 1 {
        lemma_min_max_bounds(s.drop_last(), i);
    }
}

/// The tone curve is defined on all 256 levels, starts at 0 and ends at 255.
pub proof fn lemma_tone_curve_endpoints()
    ensures
        tone_curve_table().len() == 256,
        tone_curve(0) == 0,
        tone_curve(255) == 255,
{
}

/// Neighbouring levels never map downwards.
proof fn lemma_tone_curve_adjacent()
    ensures
        forall|i: int| 0 <= i < 255 ==> #[trigger] tone_curve(i) <= tone_curve(i + 1),
{
}

/// The tone curve is monotone: a brighter normalized level never maps to a
/// darker output byte.
pub proof fn lemma_tone_curve_monotone(a: int, b: int)
    requires
        0 <= a <= b < 256,
    ensures
        tone_curve(a) <= tone_curve(b),
    decreases b - a,
{
    if a < b {
        lemma_tone_curve_monotone(a, b - 1);
        lemma_tone_curve_adjacent();
        assert(tone_curve(b - 1) <= tone_curve(b));
    }
}

/// Stage one sends every sample to a level in `[0, 255]`.
pub proof fn lemma_norm_level_bounds(s: Seq<i64>, i: int)
    requires
        0 <= i < s.len(),
    ensures
        0 <= norm_level(s, s[i] as int) <= 255,
{
    let x = s[i] as int;
    let d = norm_denom(s);
    lemma_min_max_bounds(s, i);
    lemma_div_pos_is_pos((x - seq_min(s)) * 255, d);
    lemma_div_is_ordered((x - seq_min(s)) * 255, d * 255, d);
    lemma_div_multiples_vanish(255, d);
}

/// Order preservation, end to end: a sample at least as bright as another
/// stays at least as bright through normalization, log stretch and gamma
/// correction.
pub proof fn lemma_tone_mapped_monotone(s: Seq<i64>, i: int, j: int)
    requires
        0 <= i < s.len(),
        0 <= j < s.len(),
        s[i] <= s[j],
    ensures
        tone_mapped(s, i) <= tone_mapped(s, j),
{
    let d = norm_denom(s);
    lemma_norm_level_bounds(s, i);
    lemma_norm_level_bounds(s, j);
    lemma_div_is_ordered((s[i] as int - seq_min(s)) * 255, (s[j] as int - seq_min(s)) * 255, d);
    lemma_tone_curve_monotone(norm_level(s, s[i] as int), norm_level(s, s[j] as int));
}

/// Equal samples map to equal outputs; in particular a constant-value input
/// yields a constant-value output, and the pipeline is defined on it (the
/// normalization denominator is floored away from zero).
pub proof fn lemma_tone_mapped_constant(s: Seq<i64>, i: int, j: int)
    requires
        0 <= i < s.len(),
        0 <= j < s.len(),
        s[i] == s[j],
    ensures
        tone_mapped(s, i) == tone_mapped(s, j),
{
}

/// On an input with any spread at all, the dimmest sample maps to 0 and the
/// brightest to 255: the boundary values of the min-max stage survive the two
/// nonlinear stages.
pub proof fn lemma_tone_mapped_extremes(s: Seq<i64>, i: int, j: int)
    requires
        0 <= i < s.len(),
        0 <= j < s.len(),
        s[i] as int == seq_min(s),
        s[j] as int == seq_max(s),
        seq_min(s) < seq_max(s),
    ensures
        tone_mapped(s, i) == 0,
        tone_mapped(s, j) == 255,
{
    let d = norm_denom(s);
    lemma_div_pos_is_pos(0, d);
    assert(norm_level(s, s[i] as int) == (0int * 255) / d);
    lemma_div_multiples_vanish(0, d);
    lemma_div_multiples_vanish(255, d);
    assert((s[j] as int - seq_min(s)) * 255 == d * 255);
    lemma_tone_curve_endpoints();
}

/// Run the three-stage tone-mapping pipeline over a non-empty set of
/// fixed-point luma samples: global min-max normalization to `[0, 255]`,
/// then the tabulated logarithmic stretch and gamma correction, truncated to
/// one byte per sample.
pub fn tone_map(samples: &Vec<i64>) -> (out: Vec<u8>)
    requires
        samples@.len() > 0,
    ensures
        out@.len() == samples@.len(),
        forall|i: int| 0 <= i < samples@.len() ==> out@[i] == tone_mapped(samples@, i),
{
    let ghost s = samples@;
    let mut mn: i64 = samples[0];
    let mut mx: i64 = samples[0];
    let mut i: usize = 1;
    proof {
        assert(s.subrange(0, 1).len() == 1);
    }
    while i < samples.len()
        invariant
            1 <= i <= s.len(),
            s == samples@,
            mn as int == seq_min(s.subrange(0, i as int)),
            mx as int == seq_max(s.subrange(0, i as int)),
        decreases s.len() - i,
    {
        let x = samples[i];
        proof {
            assert(s.subrange(0, i + 1 as int).drop_last() =~= s.subrange(0, i as int));
        }
        if x < mn {
            mn = x;
        }
        if x > mx {
            mx = x;
        }
        i = i + 1;
    }
    proof {
        assert(s.subrange(0, s.len() as int) =~= s);
    }
    let spread: i128 = mx as i128 - mn as i128;
    let d: u128 = if spread < 1 {
        1
    } else {
        spread as u128
    };
    proof {
        assert(d as int == norm_denom(s));
    }
    let table: [u8; 256] = [
            0u8, 45, 64, 76, 85, 93, 99, 104, 109, 113, 117, 120, 124, 127, 130, 132, 135, 137,
            139, 141, 143, 145, 147, 149, 151, 152, 154, 155, 157, 158, 160, 161, 162, 163,
            165, 166, 167, 168, 169, 170, 171, 172, 173, 174, 175, 176, 177, 178, 179, 180,
            181, 182, 183, 183, 184, 185, 186, 186, 187, 188, 189, 189, 190, 191, 191, 192,
            193, 193, 194, 195, 195, 196, 197, 197, 198, 198, 199, 200, 200, 201, 201, 202,
            202, 203, 203, 204, 204, 205, 205, 206, 206, 207, 207, 208, 208, 209, 209, 210,
            210, 211, 211, 212, 212, 212, 213, 213, 214, 214, 215, 215, 215, 216, 216, 217,
            217, 217, 218, 218, 219, 219, 219, 220, 220, 220, 221, 221, 222, 222, 222, 223,
            223, 223, 224, 224, 224, 225, 225, 225, 226, 226, 226, 227, 227, 227, 228, 228,
            228, 229, 229, 229, 230, 230, 230, 231, 231, 231, 231, 232, 232, 232, 233, 233,
            233, 233, 234, 234, 234, 235, 235, 235, 235, 236, 236, 236, 236, 237, 237, 237,
            238, 238, 238, 238, 239, 239, 239, 239, 240, 240, 240, 240, 241, 241, 241, 241,
            242, 242, 242, 242, 243, 243, 243, 243, 243, 244, 244, 244, 244, 245, 245, 245,
            245, 246, 246, 246, 246, 246, 247, 247, 247, 247, 247, 248, 248, 248, 248, 249,
            249, 249, 249, 249, 250, 250, 250, 250, 250, 251, 251, 251, 251, 251, 252, 252,
            252, 252, 252, 253, 253, 253, 253, 253, 254, 254, 254, 254, 254, 255,
    ];
    proof {
        assert(table@ =~= tone_curve_table());
    }
    let mut out: Vec<u8> = Vec::new();
    let mut k: usize = 0;
    while k < samples.len()
        invariant
            0 <= k <= s.len(),
            s == samples@,
            s.len() > 0,
            mn as int == seq_min(s),
            d as int == norm_denom(s),
            table@ =~= tone_curve_table(),
            out@.len() == k,
            forall|p: int| 0 <= p < k ==> out@[p] == tone_mapped(s, p),
        decreases s.len() - k,
    {
        let x = samples[k];
        proof {
            lemma_min_max_bounds(s, k as int);
            lemma_norm_level_bounds(s, k as int);
        }
        let diff: u128 = (x as i128 - mn as i128) as u128;
        let level: usize = ((diff * 255) / d) as usize;
        proof {
            assert(level as int == norm_level(s, s[k as int] as int));
        }
        out.push(table[level]);
        k = k + 1;
    }
    out
}

} // verus!
