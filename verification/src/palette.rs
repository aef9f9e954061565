//! The fixed color palette and the hex decoder that loads it.
//!
//! The palette is a compiled-in ordered list of hex color strings, decoded
//! once at startup; a malformed entry is reported by returning `None`,
//! which callers treat as a fatal configuration error.

use vstd::prelude::*;
use vstd::string::StrSliceExecFns;

verus! {

/// Whether `c` is an ASCII hexadecimal digit.
pub open spec fn is_hex_digit(c: char) -> bool {
    ('0' <= c && c <= '9') || ('a' <= c && c <= 'f') || ('A' <= c && c <= 'F')
}

/// The numeric value of a hexadecimal digit (0 for any other character).
pub open spec fn hex_digit_val(c: char) -> int {
    if '0' <= c && c <= '9' {
        c as int - '0' as int
    } else if 'a' <= c && c <= 'f' {
        10 + c as int - 'a' as int
    } else if 'A' <= c && c <= 'F' {
        10 + c as int - 'A' as int
    } else {
        0
    }
}

/// The number a sequence of hexadecimal digits denotes, most significant
/// digit first.
pub open spec fn hex_value_of(s: Seq<char>) -> int
    decreases s.len(),
{
    if s.len() == 0 {
        0
    } else {
        16 * hex_value_of(s.drop_last()) + hex_digit_val(s.last())
    }
}

/// A string denotes a packed color when it is nonempty, made of hex digits
/// only, and its value fits in 32 bits.
pub open spec fn valid_hex(s: Seq<char>) -> bool {
    &&& s.len() >= 1
    &&& forall|i: int| 0 <= i < s.len() ==> is_hex_digit(#[trigger] s[i])
    &&& hex_value_of(s) <= u32::MAX
}

proof fn lemma_hex_value_nonneg(s: Seq<char>)
    ensures
        hex_value_of(s) >= 0,
    decreases s.len(),
{
    if s.len() > 0 {
        lemma_hex_value_nonneg(s.drop_last());
        if '0' <= s.last() && s.last() <= '9' {
        } else if 'a' <= s.last() && s.last() <= 'f' {
        } else {
        }
    }
}

/// Reading one more digit never decreases the value denoted so far.
proof fn lemma_hex_prefix_le(s: Seq<char>, i: int)
    requires
        0 <= i <= s.len(),
    ensures
        hex_value_of(s.take(i)) <= hex_value_of(s),
    decreases s.len() - i,
{
    if i < s.len() {
        lemma_hex_prefix_le(s, i + 1);
        assert(s.take(i + 1).drop_last() =~= s.take(i));
        lemma_hex_value_nonneg(s.take(i));
        if '0' <= s.take(i + 1).last() && s.take(i + 1).last() <= '9' {
        } else if 'a' <= s.take(i + 1).last() && s.take(i + 1).last() <= 'f' {
        } else {
        }
    } else {
        assert(s.take(i) =~= s);
    }
}

/// Decode a hexadecimal color string. Returns the denoted value exactly
/// when the string is nonempty, all hex digits, and fits in a `u32`.
pub fn from_hex(s: &str) -> (r: Option<u32>)
    ensures
        valid_hex(s@) ==> r == Some(hex_value_of(s@) as u32),
        !valid_hex(s@) ==> r is None,
{
    let len = s.unicode_len();
    if len == 0 {
        return None;
    }
    let mut acc: u64 = 0;
    let mut i: usize = 0;
    while i < len
        invariant
            0 <= i <= len,
            len == s@.len(),
            acc == hex_value_of(s@.take(i as int)),
            acc <= u32::MAX,
            forall|j: int| 0 <= j < i ==> is_hex_digit(#[trigger] s@[j]),
        decreases len - i,
    {
        let c = s.get_char(i);
        let d: u64 = if '0' <= c && c <= '9' {
            (c as u32 - '0' as u32) as u64
        } else if 'a' <= c && c <= 'f' {
            (10 + c as u32 - 'a' as u32) as u64
        } else if 'A' <= c && c <= 'F' {
            (10 + c as u32 - 'A' as u32) as u64
        } else {
            // A non-digit makes the whole string invalid.
            return None;
        };
        assert(d == hex_digit_val(s@[i as int]));
        acc = acc * 16 + d;
        proof {
            assert(s@.take(i + 1).drop_last() =~= s@.take(i as int));
            assert(s@.take(i + 1).last() == s@[i as int]);
        }
        i = i + 1;
        if acc > u32::MAX as u64 {
            // The value denoted so far already exceeds the range, and
            // further digits can only increase it.
            proof {
                lemma_hex_prefix_le(s@, i as int);
            }
            return None;
        }
    }
    proof {
        assert(s@.take(len as int) =~= s@);
    }
    Some(acc as u32)
}

/// Whether every entry of the fixed palette is a well-formed hex color.
pub open spec fn spec_palette_valid() -> bool {
    &&& valid_hex("57ab5a"@)
    &&& valid_hex("eac55f"@)
    &&& valid_hex("f69d50"@)
    &&& valid_hex("f47068"@)
    &&& valid_hex("b083f0"@)
    &&& valid_hex("6cb6ff"@)
    &&& valid_hex("648c84"@)
    &&& valid_hex("24205c"@)
    &&& valid_hex("eda63d"@)
    &&& valid_hex("f2a19d"@)
    &&& valid_hex("890b3b"@)
    &&& valid_hex("87ad2f"@)
    &&& valid_hex("afc6f2"@)
    &&& valid_hex("cbd1c6"@)
    &&& valid_hex("001231"@)
    &&& valid_hex("0079b4"@)
    &&& valid_hex("b7b8a3"@)
    &&& valid_hex("e2affe"@)
}

/// The decoded fixed palette, in order.
pub open spec fn spec_palette() -> Seq<u32> {
    seq![
        hex_value_of("57ab5a"@) as u32,
        hex_value_of("eac55f"@) as u32,
        hex_value_of("f69d50"@) as u32,
        hex_value_of("f47068"@) as u32,
        hex_value_of("b083f0"@) as u32,
        hex_value_of("6cb6ff"@) as u32,
        hex_value_of("648c84"@) as u32,
        hex_value_of("24205c"@) as u32,
        hex_value_of("eda63d"@) as u32,
        hex_value_of("f2a19d"@) as u32,
        hex_value_of("890b3b"@) as u32,
        hex_value_of("87ad2f"@) as u32,
        hex_value_of("afc6f2"@) as u32,
        hex_value_of("cbd1c6"@) as u32,
        hex_value_of("001231"@) as u32,
        hex_value_of("0079b4"@) as u32,
        hex_value_of("b7b8a3"@) as u32,
        hex_value_of("e2affe"@) as u32,
    ]
}

/// Decode the compiled-in palette. Fails (with `None`) exactly when some
/// entry is malformed, a fatal configuration error for callers.
pub fn default_palette() -> (r: Option<Vec<u32>>)
    ensures
        r is Some <==> spec_palette_valid(),
        r matches Some(v) ==> v@ == spec_palette(),
{
    let mut colors: Vec<u32> = Vec::new();
    match from_hex("57ab5a") {
        Some(c) => colors.push(c),
        None => { return None; },
    }
    match from_hex("eac55f") {
        Some(c) => colors.push(c),
        None => { return None; },
    }
    match from_hex("f69d50") {
        Some(c) => colors.push(c),
        None => { return None; },
    }
    match from_hex("f47068") {
        Some(c) => colors.push(c),
        None => { return None; },
    }
    match from_hex("b083f0") {
        Some(c) => colors.push(c),
        None => { return None; },
    }
    match from_hex("6cb6ff") {
        Some(c) => colors.push(c),
        None => { return None; },
    }
    match from_hex("648c84") {
        Some(c) => colors.push(c),
        None => { return None; },
    }
    match from_hex("24205c") {
        Some(c) => colors.push(c),
        None => { return None; },
    }
    match from_hex("eda63d") {
        Some(c) => colors.push(c),
        None => { return None; },
    }
    match from_hex("f2a19d") {
        Some(c) => colors.push(c),
        None => { return None; },
    }
    match from_hex("890b3b") {
        Some(c) => colors.push(c),
        None => { return None; },
    }
    match from_hex("87ad2f") {
        Some(c) => colors.push(c),
        None => { return None; },
    }
    match from_hex("afc6f2") {
        Some(c) => colors.push(c),
        None => { return None; },
    }
    match from_hex("cbd1c6") {
        Some(c) => colors.push(c),
        None => { return None; },
    }
    match from_hex("001231") {
        Some(c) => colors.push(c),
        None => { return None; },
    }
    match from_hex("0079b4") {
        Some(c) => colors.push(c),
        None => { return None; },
    }
    match from_hex("b7b8a3") {
        Some(c) => colors.push(c),
        None => { return None; },
    }
    match from_hex("e2affe") {
        Some(c) => colors.push(c),
        None => { return None; },
    }
    proof {
        assert(colors@ =~= spec_palette());
    }
    Some(colors)
}

} // verus!
