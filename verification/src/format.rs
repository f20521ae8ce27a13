use vstd::prelude::*;

verus! {

/// The decoding family a file name is routed to. Every name maps to exactly
/// one family; `Unsupported` is terminal and no decode is attempted for it.
#[derive(Clone, Copy, Debug, PartialEq, Eq, Structural)]
pub enum Family {
    /// Common still raster formats handled by a general-purpose codec.
    StandardRaster,
    /// Frame sequences with per-frame display durations.
    Animated,
    /// Proprietary camera sensor captures run through a demosaicing pipeline.
    SensorRaw,
    /// Self-describing scientific containers with high-dynamic-range samples.
    Scientific,
    /// Modern codecs with arbitrary bit depth.
    NextGenCodec,
    /// The extension belongs to no table.
    Unsupported,
}

/// Case-insensitive match of one extension character `c` against the table
/// character `l` (always given in lower case): either the exact character, or,
/// when `l` is an ASCII letter, its upper-case variant (32 below it).
pub open spec fn ci_eq(c: char, l: char) -> bool {
    ||| c == l
    ||| ('a' <= l && l <= 'z' && c as int + 32 == l as int)
}

/// Index of the first character after the last `.` of `name`, or `-1` when
/// `name` holds no `.` at all.
pub open spec fn ext_start(name: Seq<char>) -> int
    decreases name.len(),
{
    if name.len() == 0 {
        -1
    } else if name.last() == '.' {
        name.len() as int
    } else {
        ext_start(name.drop_last())
    }
}

/// The extension of `name`: the characters after its last `.`, in their
/// original case; empty when `name` holds no `.`.
pub open spec fn ext_of(name: Seq<char>) -> Seq<char> {
    if ext_start(name) < 0 {
        Seq::empty()
    } else {
        name.subrange(ext_start(name), name.len() as int)
    }
}

/// `e` is the three-character extension `abc`, case-insensitively.
pub open spec fn ext3(e: Seq<char>, a: char, b: char, c: char) -> bool {
    e.len() == 3 && ci_eq(e[0], a) && ci_eq(e[1], b) && ci_eq(e[2], c)
}

/// `e` is the four-character extension `abcd`, case-insensitively.
pub open spec fn ext4(e: Seq<char>, a: char, b: char, c: char, d: char) -> bool {
    e.len() == 4 && ci_eq(e[0], a) && ci_eq(e[1], b) && ci_eq(e[2], c) && ci_eq(e[3], d)
}

/// Still raster formats, including the general-codec group.
pub open spec fn standard_raster_ext(e: Seq<char>) -> bool {
    ||| ext3(e, 'j', 'p', 'g')
    ||| ext4(e, 'j', 'p', 'e', 'g')
    ||| ext3(e, 'p', 'n', 'g')
    ||| ext3(e, 'b', 'm', 'p')
    ||| ext3(e, 's', 'v', 'g')
    ||| ext3(e, 'i', 'c', 'o')
    ||| ext3(e, 'p', 'n', 'm')
    ||| ext3(e, 'x', 'b', 'm')
    ||| ext3(e, 'x', 'p', 'm')
    ||| ext4(e, 'w', 'e', 'b', 'p')
    ||| ext3(e, 't', 'i', 'f')
    ||| ext4(e, 't', 'i', 'f', 'f')
    ||| ext3(e, 't', 'g', 'a')
}

/// Animated frame-sequence containers.
pub open spec fn animated_ext(e: Seq<char>) -> bool {
    ext3(e, 'g', 'i', 'f')
}

/// Camera sensor raw captures.
pub open spec fn sensor_raw_ext(e: Seq<char>) -> bool {
    ||| ext3(e, 'm', 'r', 'w')
    ||| ext3(e, 'a', 'r', 'w')
    ||| ext3(e, 's', 'r', 'f')
    ||| ext3(e, 's', 'r', '2')
    ||| ext3(e, 'n', 'e', 'f')
    ||| ext3(e, 'm', 'e', 'f')
    ||| ext3(e, 'o', 'r', 'f')
    ||| ext3(e, 's', 'r', 'w')
    ||| ext3(e, 'e', 'r', 'f')
    ||| ext3(e, 'k', 'd', 'c')
    ||| ext3(e, 'd', 'c', 's')
    ||| ext3(e, 'r', 'w', '2')
    ||| ext3(e, 'r', 'a', 'f')
    ||| ext3(e, 'd', 'c', 'r')
    ||| ext3(e, 'd', 'n', 'g')
    ||| ext3(e, 'p', 'e', 'f')
    ||| ext3(e, 'c', 'r', 'w')
    ||| ext3(e, 'i', 'i', 'q')
    ||| ext3(e, '3', 'f', 'r')
    ||| ext3(e, 'n', 'r', 'w')
    ||| ext3(e, 'm', 'o', 's')
    ||| ext3(e, 'c', 'r', '2')
    ||| ext3(e, 'a', 'r', 'i')
    ||| ext3(e, 'o', 'r', 'i')
}

/// Scientific image containers.
pub open spec fn scientific_ext(e: Seq<char>) -> bool {
    ||| ext4(e, 'f', 'i', 't', 's')
    ||| ext3(e, 'f', 'i', 't')
}

/// Next-generation codecs.
pub open spec fn next_gen_ext(e: Seq<char>) -> bool {
    ext3(e, 'j', 'x', 'l')
}

/// The family a file name is routed to. The resolution order is a safety net
/// only: the tables are pairwise disjoint, as [`lemma_format_tables_disjoint`]
/// proves, so at most one arm can ever match.
pub open spec fn family_of(name: Seq<char>) -> Family {
    let e = ext_of(name);
    if animated_ext(e) {
        Family::Animated
    } else if sensor_raw_ext(e) {
        Family::SensorRaw
    } else if scientific_ext(e) {
        Family::Scientific
    } else if next_gen_ext(e) {
        Family::NextGenCodec
    } else if standard_raster_ext(e) {
        Family::StandardRaster
    } else {
        Family::Unsupported
    }
}

fn ci_eq_exec(c: char, l: char) -> (r: bool)
    ensures
        r == ci_eq(c, l),
{
    c == l || (l >= 'a' && l <= 'z' && c as u32 + 32 == l as u32)
}

fn ext_matches3(e: &Vec<char>, a: char, b: char, c: char) -> (r: bool)
    ensures
        r == ext3(e@, a, b, c),
{
    e.len() == 3 && ci_eq_exec(e[0], a) && ci_eq_exec(e[1], b) && ci_eq_exec(e[2], c)
}

fn ext_matches4(e: &Vec<char>, a: char, b: char, c: char, d: char) -> (r: bool)
    ensures
        r == ext4(e@, a, b, c, d),
{
    e.len() == 4 && ci_eq_exec(e[0], a) && ci_eq_exec(e[1], b) && ci_eq_exec(e[2], c)
        && ci_eq_exec(e[3], d)
}

/// The characters after the last `.` of `name`, or `None` when it has no `.`.
fn extension_chars(name: &str) -> (r: Option<Vec<char>>)
    ensures
        match r {
            Some(e) => ext_start(name@) >= 0 && e@ == ext_of(name@),
            None => ext_start(name@) < 0,
        },
{
    let n = name.unicode_len();
    proof {
        assert(name@.subrange(0, n as int) =~= name@);
    }
    let mut k: usize = n;
    let mut start: Option<usize> = None;
    while k > 0
        invariant_except_break
            k <= n,
            n == name@.len(),
            start is None,
            ext_start(name@) == ext_start(name@.subrange(0, k as int)),
        ensures
            match start {
                Some(s) => 0 < s <= n && ext_start(name@) == s,
                None => ext_start(name@) < 0,
            },
            n == name@.len(),
        decreases k,
    {
        let c = name.get_char(k - 1);
        if c == '.' {
            proof {
                assert(name@.subrange(0, k as int).last() == '.');
            }
            start = Some(k);
            break ;
        }
        proof {
            assert(name@.subrange(0, k as int).drop_last() =~= name@.subrange(0, k - 1 as int));
        }
        k = k - 1;
        proof {
            if k == 0 {
                assert(name@.subrange(0, 0) =~= Seq::<char>::empty());
            }
        }
    }
    match start {
        None => None,
        Some(s) => {
            let mut ext: Vec<char> = Vec::new();
            let mut i: usize = s;
            while i < n
                invariant
                    s <= i <= n,
                    n == name@.len(),
                    ext@ == name@.subrange(s as int, i as int),
                decreases n - i,
            {
                let c = name.get_char(i);
                proof {
                    assert(name@.subrange(s as int, i as int).push(name@[i as int])
                        =~= name@.subrange(s as int, i + 1 as int));
                }
                ext.push(c);
                i = i + 1;
            }
            Some(ext)
        },
    }
}

/// Map a file name to its decoding family by case-insensitive suffix match
/// against the fixed format tables.
pub fn classify(name: &str) -> (f: Family)
    ensures
        f == family_of(name@),
{
    let ext = match extension_chars(name) {
        None => {
            proof {
                assert(ext_of(name@) =~= Seq::<char>::empty());
            }
            return Family::Unsupported;
        },
        Some(e) => e,
    };
    if ext_matches3(&ext, 'g', 'i', 'f') {
        Family::Animated
    } else if ext_matches3(&ext, 'm', 'r', 'w') || ext_matches3(&ext, 'a', 'r', 'w')
        || ext_matches3(&ext, 's', 'r', 'f') || ext_matches3(&ext, 's', 'r', '2')
        || ext_matches3(&ext, 'n', 'e', 'f') || ext_matches3(&ext, 'm', 'e', 'f')
        || ext_matches3(&ext, 'o', 'r', 'f') || ext_matches3(&ext, 's', 'r', 'w')
        || ext_matches3(&ext, 'e', 'r', 'f') || ext_matches3(&ext, 'k', 'd', 'c')
        || ext_matches3(&ext, 'd', 'c', 's') || ext_matches3(&ext, 'r', 'w', '2')
        || ext_matches3(&ext, 'r', 'a', 'f') || ext_matches3(&ext, 'd', 'c', 'r')
        || ext_matches3(&ext, 'd', 'n', 'g') || ext_matches3(&ext, 'p', 'e', 'f')
        || ext_matches3(&ext, 'c', 'r', 'w') || ext_matches3(&ext, 'i', 'i', 'q')
        || ext_matches3(&ext, '3', 'f', 'r') || ext_matches3(&ext, 'n', 'r', 'w')
        || ext_matches3(&ext, 'm', 'o', 's') || ext_matches3(&ext, 'c', 'r', '2')
        || ext_matches3(&ext, 'a', 'r', 'i') || ext_matches3(&ext, 'o', 'r', 'i') {
        Family::SensorRaw
    } else if ext_matches4(&ext, 'f', 'i', 't', 's') || ext_matches3(&ext, 'f', 'i', 't') {
        Family::Scientific
    } else if ext_matches3(&ext, 'j', 'x', 'l') {
        Family::NextGenCodec
    } else if ext_matches3(&ext, 'j', 'p', 'g') || ext_matches4(&ext, 'j', 'p', 'e', 'g')
        || ext_matches3(&ext, 'p', 'n', 'g') || ext_matches3(&ext, 'b', 'm', 'p')
        || ext_matches3(&ext, 's', 'v', 'g') || ext_matches3(&ext, 'i', 'c', 'o')
        || ext_matches3(&ext, 'p', 'n', 'm') || ext_matches3(&ext, 'x', 'b', 'm')
        || ext_matches3(&ext, 'x', 'p', 'm') || ext_matches4(&ext, 'w', 'e', 'b', 'p')
        || ext_matches3(&ext, 't', 'i', 'f') || ext_matches4(&ext, 't', 'i', 'f', 'f')
        || ext_matches3(&ext, 't', 'g', 'a') {
        Family::StandardRaster
    } else {
        Family::Unsupported
    }
}

/// Whether the name's extension is the TGA one. TGA is the one table member
/// without a recognizable signature, so the still-image decoder is given it
/// as a format hint when content sniffing finds nothing.
pub open spec fn tga_name(name: Seq<char>) -> bool {
    ext3(ext_of(name), 't', 'g', 'a')
}

pub fn has_tga_extension(name: &str) -> (r: bool)
    ensures
        r == tga_name(name@),
{
    match extension_chars(name) {
        None => {
            proof {
                assert(ext_of(name@) =~= Seq::<char>::empty());
            }
            false
        },
        Some(e) => ext_matches3(&e, 't', 'g', 'a'),
    }
}

/// A name is worth opening exactly when its extension sits in some table.
pub fn is_supported(name: &str) -> (r: bool)
    ensures
        r == (family_of(name@) != Family::Unsupported),
{
    let f = classify(name);
    match f {
        Family::Unsupported => false,
        _ => true,
    }
}

/// The five format tables are pairwise disjoint: no extension belongs to two
/// of them, so every name gets exactly one family and the classifier's
/// resolution order never decides anything.
pub proof fn lemma_format_tables_disjoint(e: Seq<char>)
    ensures
        !(standard_raster_ext(e) && animated_ext(e)),
        !(standard_raster_ext(e) && sensor_raw_ext(e)),
        !(standard_raster_ext(e) && scientific_ext(e)),
        !(standard_raster_ext(e) && next_gen_ext(e)),
        !(animated_ext(e) && sensor_raw_ext(e)),
        !(animated_ext(e) && scientific_ext(e)),
        !(animated_ext(e) && next_gen_ext(e)),
        !(sensor_raw_ext(e) && scientific_ext(e)),
        !(sensor_raw_ext(e) && next_gen_ext(e)),
        !(scientific_ext(e) && next_gen_ext(e)),
{
}

/// Every extension in a table is routed to exactly that table's family.
pub proof fn lemma_classifier_exact(name: Seq<char>)
    ensures
        animated_ext(ext_of(name)) <==> family_of(name) == Family::Animated,
        sensor_raw_ext(ext_of(name)) <==> family_of(name) == Family::SensorRaw,
        scientific_ext(ext_of(name)) <==> family_of(name) == Family::Scientific,
        next_gen_ext(ext_of(name)) <==> family_of(name) == Family::NextGenCodec,
        standard_raster_ext(ext_of(name)) <==> family_of(name) == Family::StandardRaster,
{
    lemma_format_tables_disjoint(ext_of(name));
}

} // verus!
