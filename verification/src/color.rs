//! RGB colours: parsing from hex strings and random light colours.
//!
//! `Rgb::from_hex` accepts a six-digit hex colour, optionally wrapped in
//! ASCII whitespace and prefixed by `#` or `0x` (each stripped repeatedly),
//! and returns the three parsed channel bytes. Only ASCII whitespace is
//! trimmed: an input padded with exotic Unicode spacing is rejected.

use vstd::prelude::*;
use vstd::string::StrSliceExecFns;
use vstd::string::StringSliceAdditionalSpecFns;

verus! {

/// An RGB colour with 8-bit channels.
#[derive(Clone, Copy, PartialEq, Eq, Structural, Debug)]
pub struct Rgb {
    pub r: u8,
    pub g: u8,
    pub b: u8,
}

/// Why a hex colour string was rejected.
#[derive(Clone, Copy, PartialEq, Eq, Structural, Debug)]
pub enum HexError {
    /// After trimming and prefix stripping, the input is not six characters.
    BadLength,
    /// One of the six characters is not a hexadecimal digit.
    BadDigit,
}

/// ASCII whitespace byte.
pub open spec fn is_ws(b: u8) -> bool {
    b == 32 || (9 <= b <= 13)
}

/// `s` without leading whitespace.
pub open spec fn trim_start(s: Seq<u8>) -> Seq<u8>
    decreases s.len(),
{
    if s.len() > 0 && is_ws(s.first()) {
        trim_start(s.drop_first())
    } else {
        s
    }
}

/// `s` without trailing whitespace.
pub open spec fn trim_end(s: Seq<u8>) -> Seq<u8>
    decreases s.len(),
{
    if s.len() > 0 && is_ws(s.last()) {
        trim_end(s.drop_last())
    } else {
        s
    }
}

/// `s` without every leading `'#'`.
pub open spec fn strip_hashes(s: Seq<u8>) -> Seq<u8>
    decreases s.len(),
{
    if s.len() > 0 && s.first() == 35 {
        strip_hashes(s.drop_first())
    } else {
        s
    }
}

/// `s` without every leading `"0x"`.
pub open spec fn strip_0x(s: Seq<u8>) -> Seq<u8>
    decreases s.len(),
{
    if s.len() >= 2 && s[0] == 48 && s[1] == 120 {
        strip_0x(s.skip(2))
    } else {
        s
    }
}

/// The six digits a hex colour is read from: the input bytes, trimmed, then
/// stripped of leading `'#'`s and leading `"0x"`s.
pub open spec fn hex_core(s: Seq<u8>) -> Seq<u8> {
    strip_0x(strip_hashes(trim_end(trim_start(s))))
}

/// ASCII hexadecimal digit.
pub open spec fn is_hex_digit(b: u8) -> bool {
    (48 <= b <= 57) || (97 <= b <= 102) || (65 <= b <= 70)
}

/// Value of one hexadecimal digit.
pub open spec fn hex_val(b: u8) -> int {
    if 48 <= b <= 57 {
        b - 48
    } else if 97 <= b <= 102 {
        b - 87
    } else {
        b - 55
    }
}

/// Value of a two-digit hexadecimal pair.
pub open spec fn spec_pair(h: u8, l: u8) -> int {
    16 * hex_val(h) + hex_val(l)
}

/// The colour read from the UTF-8 bytes of a hex string, or the reason the
/// string is rejected.
pub open spec fn spec_from_hex(s: Seq<u8>) -> Result<Rgb, HexError> {
    let c = hex_core(s);
    if c.len() != 6 {
        Err(HexError::BadLength)
    } else if !(forall|i: int| 0 <= i < 6 ==> is_hex_digit(c[i])) {
        Err(HexError::BadDigit)
    } else {
        Ok(
            Rgb {
                r: spec_pair(c[0], c[1]) as u8,
                g: spec_pair(c[2], c[3]) as u8,
                b: spec_pair(c[4], c[5]) as u8,
            },
        )
    }
}

/// Whether `c` is an ASCII whitespace byte.
fn is_ws_byte(c: u8) -> (r: bool)
    ensures
        r == is_ws(c),
{
    c == 32 || (9 <= c && c <= 13)
}

/// Whether `c` is an ASCII hexadecimal digit.
fn is_hex_byte(c: u8) -> (r: bool)
    ensures
        r == is_hex_digit(c),
{
    (48 <= c && c <= 57) || (97 <= c && c <= 102) || (65 <= c && c <= 70)
}

/// The value of one hexadecimal digit byte.
fn hex_val_byte(c: u8) -> (v: u8)
    requires
        is_hex_digit(c),
    ensures
        v as int == hex_val(c),
        v < 16,
{
    if c >= 97 {
        c - 87
    } else if c >= 65 {
        c - 55
    } else {
        c - 48
    }
}

/// The value of a two-digit hexadecimal pair.
fn hex_pair(h: u8, l: u8) -> (v: u8)
    requires
        is_hex_digit(h),
        is_hex_digit(l),
    ensures
        v as int == spec_pair(h, l),
{
    16 * hex_val_byte(h) + hex_val_byte(l)
}

impl Rgb {
    /// Parse a hex colour such as `"#2ecc71"`, `"2ecc71"`, `" #e74c3c "` or
    /// `"0xe74c3c"` into its three channel bytes. Surrounding ASCII
    /// whitespace is ignored; any other byte must belong to the prefix or
    /// the six digits.
    pub fn from_hex(hex: &str) -> (res: Result<Rgb, HexError>)
        ensures
            res == spec_from_hex(hex.spec_bytes()),
    {
        let bytes: Vec<u8> = hex.as_bytes_vec();
        let ghost full: Seq<u8> = bytes@;
        let mut lo: usize = 0;
        let mut hi: usize = bytes.len();
        proof {
            assert(full.subrange(0, full.len() as int) =~= full);
        }
        while lo < hi && is_ws_byte(bytes[lo])
            invariant
                lo <= hi == full.len(),
                bytes@ == full,
                trim_start(full) == trim_start(full.subrange(lo as int, hi as int)),
            decreases hi - lo,
        {
            proof {
                let s = full.subrange(lo as int, hi as int);
                assert(s.first() == full[lo as int]);
                assert(s.drop_first() =~= full.subrange(lo as int + 1, hi as int));
            }
            lo = lo + 1;
        }
        proof {
            let s = full.subrange(lo as int, hi as int);
            if lo < hi {
                assert(s.first() == full[lo as int]);
            }
            assert(trim_start(full) == s);
        }
        let ghost lo1 = lo as int;

        while lo < hi && is_ws_byte(bytes[hi - 1])
            invariant
                lo1 == lo as int,
                lo <= hi <= full.len(),
                bytes@ == full,
                trim_end(trim_start(full)) == trim_end(
                    full.subrange(lo as int, hi as int),
                ),
            decreases hi - lo,
        {
            proof {
                let s = full.subrange(lo as int, hi as int);
                assert(s.last() == full[hi as int - 1]);
                assert(s.drop_last() =~= full.subrange(lo as int, hi as int - 1));
            }
            hi = hi - 1;
        }
        proof {
            let s = full.subrange(lo as int, hi as int);
            if lo < hi {
                assert(s.last() == full[hi as int - 1]);
            }
            assert(trim_end(trim_start(full)) == s);
        }

        while lo < hi && bytes[lo] == 35
            invariant
                lo <= hi <= full.len(),
                bytes@ == full,
                strip_hashes(trim_end(trim_start(full))) == strip_hashes(
                    full.subrange(lo as int, hi as int),
                ),
            decreases hi - lo,
        {
            proof {
                let s = full.subrange(lo as int, hi as int);
                assert(s.first() == full[lo as int]);
                assert(s.drop_first() =~= full.subrange(lo as int + 1, hi as int));
            }
            lo = lo + 1;
        }
        proof {
            let s = full.subrange(lo as int, hi as int);
            if lo < hi {
                assert(s.first() == full[lo as int]);
            }
            assert(strip_hashes(trim_end(trim_start(full))) == s);
        }

        while hi - lo >= 2 && bytes[lo] == 48 && bytes[lo + 1] == 120
            invariant
                lo <= hi <= full.len(),
                bytes@ == full,
                hex_core(full) == strip_0x(full.subrange(lo as int, hi as int)),
            decreases hi - lo,
        {
            proof {
                let s = full.subrange(lo as int, hi as int);
                assert(s[0] == full[lo as int]);
                assert(s[1] == full[lo as int + 1]);
                assert(s.skip(2) =~= full.subrange(lo as int + 2, hi as int));
            }
            lo = lo + 2;
        }
        proof {
            let s = full.subrange(lo as int, hi as int);
            if hi - lo >= 2 {
                assert(s[0] == full[lo as int]);
                assert(s[1] == full[lo as int + 1]);
            }
            assert(hex_core(full) == s);
        }
        let ghost core = full.subrange(lo as int, hi as int);

        if hi - lo != 6 {
            return Err(HexError::BadLength);
        }
        let c0 = bytes[lo];
        let c1 = bytes[lo + 1];
        let c2 = bytes[lo + 2];
        let c3 = bytes[lo + 3];
        let c4 = bytes[lo + 4];
        let c5 = bytes[lo + 5];
        proof {
            assert(core[0] == c0);
            assert(core[1] == c1);
            assert(core[2] == c2);
            assert(core[3] == c3);
            assert(core[4] == c4);
            assert(core[5] == c5);
        }
        if !(is_hex_byte(c0) && is_hex_byte(c1) && is_hex_byte(c2) && is_hex_byte(c3)
            && is_hex_byte(c4) && is_hex_byte(c5)) {
            proof {
                assert(!(forall|i: int| 0 <= i < 6 ==> is_hex_digit(core[i])));
            }
            return Err(HexError::BadDigit);
        }
        proof {
            assert(forall|i: int| 0 <= i < 6 ==> is_hex_digit(core[i])) by {
                assert(is_hex_digit(core[0]));
                assert(is_hex_digit(core[1]));
                assert(is_hex_digit(core[2]));
                assert(is_hex_digit(core[3]));
                assert(is_hex_digit(core[4]));
                assert(is_hex_digit(core[5]));
            }
        }
        Ok(Rgb { r: hex_pair(c0, c1), g: hex_pair(c2, c3), b: hex_pair(c4, c5) })
    }
}

/// Relies on `rand::random_range`: a sample drawn from an inclusive range
/// lies within that range.
#[verifier::external_body]
fn random_u8_in(lo: u8, hi: u8) -> (r: u8)
    requires
        lo <= hi,
    ensures
        lo <= r <= hi,
{
    rand::random_range(lo..=hi)
}

/// A random light colour: every channel lies in `128..=255`.
pub fn generate_random_color() -> (c: Rgb)
    ensures
        128 <= c.r,
        128 <= c.g,
        128 <= c.b,
{
    Rgb { r: random_u8_in(128, 255), g: random_u8_in(128, 255), b: random_u8_in(128, 255) }
}

} // verus!
