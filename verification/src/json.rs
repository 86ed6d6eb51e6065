//! Lexical layer of the frame decoder.
//!
//! Event frames are JSON texts.  This module reads the JSON building
//! blocks directly from the frame bytes: whitespace, strings (with escape
//! sequences), numbers (into exact decimal readings), the three literal
//! words, and a generic "skip one value" used for fields the engine does
//! not inspect.  Each reader has a specification twin that defines exactly
//! which bytes are accepted and what they decode to; the executable
//! readers are proved to return precisely what the twins say.
//!
//! Numbers whose mantissa would not fit in a signed 64-bit word, or whose
//! decimal scale would exceed [`crate::num::MAX_SCALE_IN`], are rejected:
//! the engine holds readings exactly and such values have no exact form
//! here.  Escapes of surrogate code points are rejected as well.

use vstd::prelude::*;

use crate::num::Num;

verus! {

/// Mantissa cap: `i64::MAX`.
pub const MANT_CAP: u64 = 0x7fff_ffff_ffff_ffff;

/// Largest mantissa that may take one more decimal digit: `i64::MAX / 10`.
pub const MANT_CAP_DIV10: u64 = 922_337_203_685_477_580;

/// JSON insignificant whitespace.
pub open spec fn is_ws(c: u8) -> bool {
    c == 32 || c == 9 || c == 10 || c == 13
}

/// ASCII decimal digit.
pub open spec fn is_digit(c: u8) -> bool {
    48 <= c <= 57
}

/// Whether byte `c` stands at position `i`.
pub open spec fn at(s: Seq<u8>, i: int, c: u8) -> bool {
    0 <= i < s.len() && s[i] == c
}

/// The first position at or after `i` holding no whitespace.
pub open spec fn spec_ws(s: Seq<u8>, i: int) -> int
    decreases s.len() - i,
{
    if 0 <= i < s.len() && is_ws(s[i]) {
        spec_ws(s, i + 1)
    } else {
        i
    }
}

/// Advance over whitespace.
pub fn skip_ws(s: &Vec<u8>, i: usize) -> (j: usize)
    ensures
        j == spec_ws(s@, i as int),
        i <= j,
        i <= s.len() ==> j <= s.len(),
{
    let mut j: usize = i;
    while j < s.len() && (s[j] == 32 || s[j] == 9 || s[j] == 10 || s[j] == 13)
        invariant
            i <= j,
            spec_ws(s@, i as int) == spec_ws(s@, j as int),
            i <= s.len() ==> j <= s.len(),
        decreases s.len() - j,
    {
        j = j + 1;
    }
    j
}

/// The byte an escape letter stands for, if it is a simple escape.
pub open spec fn esc_byte(c: u8) -> Option<u8> {
    if c == 34 {
        Some(34u8)
    } else if c == 92 {
        Some(92u8)
    } else if c == 47 {
        Some(47u8)
    } else if c == 98 {
        Some(8u8)
    } else if c == 102 {
        Some(12u8)
    } else if c == 110 {
        Some(10u8)
    } else if c == 114 {
        Some(13u8)
    } else if c == 116 {
        Some(9u8)
    } else {
        None
    }
}

/// The value of a hexadecimal digit.
pub open spec fn hex_val(c: u8) -> Option<u32> {
    if 48 <= c <= 57 {
        Some((c - 48) as u32)
    } else if 97 <= c <= 102 {
        Some((c - 87) as u32)
    } else if 65 <= c <= 70 {
        Some((c - 55) as u32)
    } else {
        None
    }
}

/// Four hexadecimal digits at `i`, as a code point.
pub open spec fn spec_hex4(s: Seq<u8>, i: int) -> Option<u32> {
    if 0 <= i && i + 4 <= s.len() {
        match (hex_val(s[i]), hex_val(s[i + 1]), hex_val(s[i + 2]), hex_val(s[i + 3])) {
            (Some(a), Some(b), Some(c), Some(d)) => Some(
                ((a * 4096) + (b * 256) + (c * 16) + d) as u32,
            ),
            _ => None,
        }
    } else {
        None
    }
}

/// The UTF-8 bytes of a code point below `0x10000`.
pub open spec fn utf8_bytes(cp: u32) -> Seq<u8> {
    if cp < 0x80 {
        seq![cp as u8]
    } else if cp < 0x800 {
        seq![(0xc0 | (cp >> 6)) as u8, (0x80 | (cp & 0x3f)) as u8]
    } else {
        seq![
            (0xe0 | (cp >> 12)) as u8,
            (0x80 | ((cp >> 6) & 0x3f)) as u8,
            (0x80 | (cp & 0x3f)) as u8,
        ]
    }
}

/// The body of a string, read from just after the opening quote: the
/// decoded bytes so far are in `acc`; the result is the full decoded text
/// and the position after the closing quote.  Unescaped control bytes,
/// bad escapes, and escapes of surrogate code points are rejected.
pub open spec fn spec_str_body(s: Seq<u8>, i: int, acc: Seq<u8>) -> Option<(Seq<u8>, int)>
    decreases s.len() - i,
{
    if !(0 <= i < s.len()) {
        None
    } else {
        let c = s[i];
        if c == 34 {
            Some((acc, i + 1))
        } else if c == 92 {
            if i + 1 < s.len() {
                let e = s[i + 1];
                if e == 117 {
                    match spec_hex4(s, i + 2) {
                        Some(cp) => if 0xd800 <= cp <= 0xdfff {
                            None
                        } else {
                            spec_str_body(s, i + 6, acc + utf8_bytes(cp))
                        },
                        None => None,
                    }
                } else {
                    match esc_byte(e) {
                        Some(b) => spec_str_body(s, i + 2, acc.push(b)),
                        None => None,
                    }
                }
            } else {
                None
            }
        } else if c < 32 {
            None
        } else {
            spec_str_body(s, i + 1, acc.push(c))
        }
    }
}

/// A whole string at `i`: an opening quote, a body, a closing quote.
pub open spec fn spec_string(s: Seq<u8>, i: int) -> Option<(Seq<u8>, int)> {
    if at(s, i, 34) {
        spec_str_body(s, i + 1, Seq::empty())
    } else {
        None
    }
}

fn esc_byte_x(c: u8) -> (r: Option<u8>)
    ensures
        r == esc_byte(c),
{
    if c == 34 {
        Some(34)
    } else if c == 92 {
        Some(92)
    } else if c == 47 {
        Some(47)
    } else if c == 98 {
        Some(8)
    } else if c == 102 {
        Some(12)
    } else if c == 110 {
        Some(10)
    } else if c == 114 {
        Some(13)
    } else if c == 116 {
        Some(9)
    } else {
        None
    }
}

fn hex_val_x(c: u8) -> (r: Option<u32>)
    ensures
        r == hex_val(c),
{
    if 48 <= c && c <= 57 {
        Some((c - 48) as u32)
    } else if 97 <= c && c <= 102 {
        Some((c - 87) as u32)
    } else if 65 <= c && c <= 70 {
        Some((c - 55) as u32)
    } else {
        None
    }
}

fn hex4(s: &Vec<u8>, i: usize) -> (r: Option<u32>)
    ensures
        r == spec_hex4(s@, i as int),
        r is Some ==> i + 4 <= s.len(),
{
    if s.len() >= 4 && i <= s.len() - 4 {
        match (hex_val_x(s[i]), hex_val_x(s[i + 1]), hex_val_x(s[i + 2]), hex_val_x(s[i + 3])) {
            (Some(a), Some(b), Some(c), Some(d)) => Some((a * 4096) + (b * 256) + (c * 16) + d),
            _ => None,
        }
    } else {
        None
    }
}

fn str_body(s: &Vec<u8>, i: usize, acc: Vec<u8>) -> (r: Option<(Vec<u8>, usize)>)
    ensures
        match r {
            Some((v, j)) => spec_str_body(s@, i as int, acc@) == Some((v@, j as int)) && j <= s.len(),
            None => spec_str_body(s@, i as int, acc@) is None,
        },
    decreases s.len() - i,
{
    if i >= s.len() {
        return None;
    }
    let c = s[i];
    if c == 34 {
        Some((acc, i + 1))
    } else if c == 92 {
        if i + 1 < s.len() {
            let e = s[i + 1];
            if e == 117 {
                match hex4(s, i + 2) {
                    Some(cp) => {
                        if 0xd800 <= cp && cp <= 0xdfff {
                            None
                        } else {
                            let mut acc2 = acc;
                            if cp < 0x80 {
                                acc2.push(cp as u8);
                            } else if cp < 0x800 {
                                acc2.push((0xc0 | (cp >> 6)) as u8);
                                acc2.push((0x80 | (cp & 0x3f)) as u8);
                            } else {
                                acc2.push((0xe0 | (cp >> 12)) as u8);
                                acc2.push((0x80 | ((cp >> 6) & 0x3f)) as u8);
                                acc2.push((0x80 | (cp & 0x3f)) as u8);
                            }
                            proof {
                                assert(acc2@ =~= acc@ + utf8_bytes(cp));
                            }
                            str_body(s, i + 6, acc2)
                        }
                    },
                    None => None,
                }
            } else {
                match esc_byte_x(e) {
                    Some(b) => {
                        let mut acc2 = acc;
                        acc2.push(b);
                        str_body(s, i + 2, acc2)
                    },
                    None => None,
                }
            }
        } else {
            None
        }
    } else if c < 32 {
        None
    } else {
        let mut acc2 = acc;
        acc2.push(c);
        str_body(s, i + 1, acc2)
    }
}

/// Read a whole string at `i`.
pub fn parse_string(s: &Vec<u8>, i: usize) -> (r: Option<(Vec<u8>, usize)>)
    ensures
        match r {
            Some((v, j)) => spec_string(s@, i as int) == Some((v@, j as int)) && j <= s.len(),
            None => spec_string(s@, i as int) is None,
        },
{
    if i < s.len() && s[i] == 34 {
        str_body(s, i + 1, Vec::new())
    } else {
        None
    }
}

/// A run of digits folded into `acc`; stops at the first non-digit.
/// Rejected when the value would exceed the mantissa cap.
pub open spec fn spec_digits_run(s: Seq<u8>, i: int, acc: u64) -> Option<(u64, int)>
    decreases s.len() - i,
{
    if 0 <= i < s.len() && is_digit(s[i]) {
        if acc > MANT_CAP_DIV10 {
            None
        } else {
            let acc2 = (acc * 10 + (s[i] - 48)) as u64;
            if acc2 > MANT_CAP {
                None
            } else {
                spec_digits_run(s, i + 1, acc2)
            }
        }
    } else {
        Some((acc, i))
    }
}

/// A run of fraction digits folded into the mantissa `m`, raising the
/// scale `sc` by one per digit.  Rejected past the mantissa cap or the
/// largest scale.
pub open spec fn spec_frac_run(s: Seq<u8>, i: int, m: u64, sc: u32) -> Option<(u64, u32, int)>
    decreases s.len() - i,
{
    if 0 <= i < s.len() && is_digit(s[i]) {
        if m > MANT_CAP_DIV10 || sc >= crate::num::MAX_SCALE_IN {
            None
        } else {
            let m2 = (m * 10 + (s[i] - 48)) as u64;
            if m2 > MANT_CAP {
                None
            } else {
                spec_frac_run(s, i + 1, m2, (sc + 1) as u32)
            }
        }
    } else {
        Some((m, sc, i))
    }
}

/// A run of exponent digits, saturated at 9999.  Saturation never changes
/// what is accepted: an exponent that large either meets a zero mantissa
/// (where any exponent yields zero) or fails the shift or scale caps just
/// as the unsaturated value would.
pub open spec fn spec_exp_run(s: Seq<u8>, i: int, acc: u32) -> (u32, int)
    decreases s.len() - i,
{
    if 0 <= i < s.len() && is_digit(s[i]) {
        let acc2 = if acc * 10 + (s[i] - 48) > 9999 {
            9999u32
        } else {
            (acc * 10 + (s[i] - 48)) as u32
        };
        spec_exp_run(s, i + 1, acc2)
    } else {
        (acc, i)
    }
}

/// `m * 10^e`, or nothing when that would exceed the mantissa cap.
pub open spec fn spec_shift_up(m: u64, e: u32) -> Option<u64>
    decreases e,
{
    if e == 0 {
        Some(m)
    } else if m > MANT_CAP_DIV10 {
        None
    } else {
        spec_shift_up((m * 10) as u64, (e - 1) as u32)
    }
}

/// Fold an exponent into a mantissa and scale.  A zero mantissa absorbs
/// any exponent; a negative exponent raises the scale; a positive one
/// shifts the mantissa up once it has eaten the scale.
pub open spec fn spec_apply_exp(m: u64, sc: u32, eneg: bool, e: u32) -> Option<(u64, u32)> {
    if m == 0 {
        Some((0u64, 0u32))
    } else if eneg {
        if sc + e > crate::num::MAX_SCALE_IN {
            None
        } else {
            Some((m, (sc + e) as u32))
        }
    } else if e >= sc {
        match spec_shift_up(m, (e - sc) as u32) {
            Some(m2) => Some((m2, 0u32)),
            None => None,
        }
    } else {
        Some((m, (sc - e) as u32))
    }
}

/// A signed reading from an unsigned mantissa.
pub open spec fn mk_num(neg: bool, m: u64, sc: u32) -> Num {
    Num { mant: if neg { (-(m as int)) as i64 } else { m as i64 }, scale: sc }
}

/// A complete JSON number at `i`: optional sign, an integer part with no
/// leading zero, an optional fraction, an optional exponent.
pub open spec fn spec_number(s: Seq<u8>, i: int) -> Option<(Num, int)> {
    let (neg, i1): (bool, int) = if at(s, i, 45) {
        (true, i + 1)
    } else {
        (false, i)
    };
    if !(0 <= i1 < s.len() && is_digit(s[i1])) {
        None
    } else {
        let ip: Option<(u64, int)> = if s[i1] == 48 {
            if i1 + 1 < s.len() && is_digit(s[i1 + 1]) {
                None
            } else {
                Some((0u64, i1 + 1))
            }
        } else {
            spec_digits_run(s, i1, 0u64)
        };
        match ip {
            None => None,
            Some((m0, i2)) => {
                let fr: Option<(u64, u32, int)> = if at(s, i2, 46) {
                    if i2 + 1 < s.len() && is_digit(s[i2 + 1]) {
                        spec_frac_run(s, i2 + 1, m0, 0u32)
                    } else {
                        None
                    }
                } else {
                    Some((m0, 0u32, i2))
                };
                match fr {
                    None => None,
                    Some((m1, sc, i3)) => {
                        if at(s, i3, 101) || at(s, i3, 69) {
                            let (eneg, i4): (bool, int) = if at(s, i3 + 1, 45) {
                                (true, i3 + 2)
                            } else if at(s, i3 + 1, 43) {
                                (false, i3 + 2)
                            } else {
                                (false, i3 + 1)
                            };
                            if 0 <= i4 < s.len() && is_digit(s[i4]) {
                                let (e, i5) = spec_exp_run(s, i4, 0u32);
                                match spec_apply_exp(m1, sc, eneg, e) {
                                    None => None,
                                    Some((m2, sc2)) => Some((mk_num(neg, m2, sc2), i5)),
                                }
                            } else {
                                None
                            }
                        } else {
                            Some((mk_num(neg, m1, sc), i3))
                        }
                    },
                }
            },
        }
    }
}

fn digits_run(s: &Vec<u8>, i: usize, acc: u64) -> (r: Option<(u64, usize)>)
    requires
        i <= s.len(),
        acc <= MANT_CAP,
    ensures
        match r {
            Some((m, j)) => spec_digits_run(s@, i as int, acc) == Some((m, j as int)) && j
                <= s.len() && m <= MANT_CAP,
            None => spec_digits_run(s@, i as int, acc) is None,
        },
    decreases s.len() - i,
{
    if i < s.len() && 48 <= s[i] && s[i] <= 57 {
        if acc > MANT_CAP_DIV10 {
            None
        } else {
            let acc2: u64 = acc * 10 + ((s[i] - 48) as u64);
            if acc2 > MANT_CAP {
                None
            } else {
                digits_run(s, i + 1, acc2)
            }
        }
    } else {
        Some((acc, i))
    }
}

fn frac_run(s: &Vec<u8>, i: usize, m: u64, sc: u32) -> (r: Option<(u64, u32, usize)>)
    requires
        i <= s.len(),
        m <= MANT_CAP,
        sc <= crate::num::MAX_SCALE_IN,
    ensures
        match r {
            Some((m2, sc2, j)) => spec_frac_run(s@, i as int, m, sc) == Some((m2, sc2, j as int))
                && j <= s.len() && m2 <= MANT_CAP && sc2 <= crate::num::MAX_SCALE_IN,
            None => spec_frac_run(s@, i as int, m, sc) is None,
        },
    decreases s.len() - i,
{
    if i < s.len() && 48 <= s[i] && s[i] <= 57 {
        if m > MANT_CAP_DIV10 || sc >= crate::num::MAX_SCALE_IN {
            None
        } else {
            let m2: u64 = m * 10 + ((s[i] - 48) as u64);
            if m2 > MANT_CAP {
                None
            } else {
                frac_run(s, i + 1, m2, sc + 1)
            }
        }
    } else {
        Some((m, sc, i))
    }
}

fn exp_run(s: &Vec<u8>, i: usize, acc: u32) -> (r: (u32, usize))
    requires
        i <= s.len(),
        acc <= 9999,
    ensures
        spec_exp_run(s@, i as int, acc) == (r.0, r.1 as int),
        r.1 <= s.len(),
        r.0 <= 9999,
    decreases s.len() - i,
{
    if i < s.len() && 48 <= s[i] && s[i] <= 57 {
        let d: u32 = (s[i] - 48) as u32;
        let acc2: u32 = if acc * 10 + d > 9999 {
            9999
        } else {
            acc * 10 + d
        };
        exp_run(s, i + 1, acc2)
    } else {
        (acc, i)
    }
}

fn shift_up(m: u64, e: u32) -> (r: Option<u64>)
    requires
        m <= MANT_CAP,
    ensures
        r == spec_shift_up(m, e),
        r matches Some(m2) ==> m2 <= MANT_CAP,
    decreases e,
{
    if e == 0 {
        Some(m)
    } else if m > MANT_CAP_DIV10 {
        None
    } else {
        shift_up(m * 10, e - 1)
    }
}

/// Read a complete JSON number at `i` into an exact decimal reading.
pub fn parse_number(s: &Vec<u8>, i: usize) -> (r: Option<(Num, usize)>)
    ensures
        match r {
            Some((n, j)) => spec_number(s@, i as int) == Some((n, j as int)) && j <= s.len()
                && n.wf() && n.scale <= crate::num::MAX_SCALE_IN,
            None => spec_number(s@, i as int) is None,
        },
{
    let (neg, i1): (bool, usize) = if i < s.len() && s[i] == 45 {
        (true, i + 1)
    } else {
        (false, i)
    };
    if !(i1 < s.len() && 48 <= s[i1] && s[i1] <= 57) {
        return None;
    }
    let ip: Option<(u64, usize)> = if s[i1] == 48 {
        if i1 + 1 < s.len() && 48 <= s[i1 + 1] && s[i1 + 1] <= 57 {
            None
        } else {
            Some((0u64, i1 + 1))
        }
    } else {
        digits_run(s, i1, 0)
    };
    match ip {
        None => None,
        Some((m0, i2)) => {
            let fr: Option<(u64, u32, usize)> = if i2 < s.len() && s[i2] == 46 {
                if i2 + 1 < s.len() && 48 <= s[i2 + 1] && s[i2 + 1] <= 57 {
                    frac_run(s, i2 + 1, m0, 0)
                } else {
                    None
                }
            } else {
                Some((m0, 0u32, i2))
            };
            match fr {
                None => None,
                Some((m1, sc, i3)) => {
                    if i3 < s.len() && (s[i3] == 101 || s[i3] == 69) {
                        let (eneg, i4): (bool, usize) = if i3 + 1 < s.len() && s[i3 + 1] == 45 {
                            (true, i3 + 2)
                        } else if i3 + 1 < s.len() && s[i3 + 1] == 43 {
                            (false, i3 + 2)
                        } else {
                            (false, i3 + 1)
                        };
                        if i4 < s.len() && 48 <= s[i4] && s[i4] <= 57 {
                            let (e, i5): (u32, usize) = exp_run(s, i4, 0);
                            let ap: Option<(u64, u32)> = if m1 == 0 {
                                Some((0u64, 0u32))
                            } else if eneg {
                                if sc + e > crate::num::MAX_SCALE_IN {
                                    None
                                } else {
                                    Some((m1, sc + e))
                                }
                            } else if e >= sc {
                                match shift_up(m1, e - sc) {
                                    Some(m2) => Some((m2, 0u32)),
                                    None => None,
                                }
                            } else {
                                Some((m1, sc - e))
                            };
                            match ap {
                                None => None,
                                Some((m2, sc2)) => {
                                    let mant: i64 = if neg {
                                        -(m2 as i64)
                                    } else {
                                        m2 as i64
                                    };
                                    Some((Num { mant, scale: sc2 }, i5))
                                },
                            }
                        } else {
                            None
                        }
                    } else {
                        let mant: i64 = if neg {
                            -(m1 as i64)
                        } else {
                            m1 as i64
                        };
                        Some((Num { mant, scale: sc }, i3))
                    }
                },
            }
        },
    }
}

/// The word `true` at `i`.
pub open spec fn spec_true_at(s: Seq<u8>, i: int) -> bool {
    0 <= i && i + 4 <= s.len() && s[i] == 116 && s[i + 1] == 114 && s[i + 2] == 117 && s[i + 3]
        == 101
}

/// The word `false` at `i`.
pub open spec fn spec_false_at(s: Seq<u8>, i: int) -> bool {
    0 <= i && i + 5 <= s.len() && s[i] == 102 && s[i + 1] == 97 && s[i + 2] == 108 && s[i + 3]
        == 115 && s[i + 4] == 101
}

/// The word `null` at `i`.
pub open spec fn spec_null_at(s: Seq<u8>, i: int) -> bool {
    0 <= i && i + 4 <= s.len() && s[i] == 110 && s[i + 1] == 117 && s[i + 2] == 108 && s[i + 3]
        == 108
}

/// Whether the word `true` stands at `i`.
pub fn true_at(s: &Vec<u8>, i: usize) -> (r: bool)
    ensures
        r == spec_true_at(s@, i as int),
{
    s.len() >= 4 && i <= s.len() - 4 && s[i] == 116 && s[i + 1] == 114 && s[i + 2] == 117 && s[i
        + 3] == 101
}

/// Whether the word `false` stands at `i`.
pub fn false_at(s: &Vec<u8>, i: usize) -> (r: bool)
    ensures
        r == spec_false_at(s@, i as int),
{
    s.len() >= 5 && i <= s.len() - 5 && s[i] == 102 && s[i + 1] == 97 && s[i + 2] == 108 && s[i
        + 3] == 115 && s[i + 4] == 101
}

/// Whether the word `null` stands at `i`.
pub fn null_at(s: &Vec<u8>, i: usize) -> (r: bool)
    ensures
        r == spec_null_at(s@, i as int),
{
    s.len() >= 4 && i <= s.len() - 4 && s[i] == 110 && s[i + 1] == 117 && s[i + 2] == 108 && s[i
        + 3] == 108
}

/// Pass over one complete value at `i` (no leading whitespace); the result
/// is the position just after it.  `fuel` bounds the recursion through
/// nested containers and member lists; one unit is spent per member,
/// element, and nesting step, and each such step consumes at least one
/// input byte, so a fuel of one more than the frame length never runs out.
pub open spec fn spec_skip_value(s: Seq<u8>, i: int, fuel: nat) -> Option<int>
    decreases fuel, 2int,
{
    if !(0 <= i < s.len()) {
        None
    } else {
        let c = s[i];
        if c == 34 {
            match spec_string(s, i) {
                Some((_v, j)) => Some(j),
                None => None,
            }
        } else if c == 123 {
            spec_skip_object(s, i + 1, fuel)
        } else if c == 91 {
            spec_skip_array(s, i + 1, fuel)
        } else if c == 116 {
            if spec_true_at(s, i) {
                Some(i + 4)
            } else {
                None
            }
        } else if c == 102 {
            if spec_false_at(s, i) {
                Some(i + 5)
            } else {
                None
            }
        } else if c == 110 {
            if spec_null_at(s, i) {
                Some(i + 4)
            } else {
                None
            }
        } else if c == 45 || is_digit(c) {
            match spec_number(s, i) {
                Some((_n, j)) => Some(j),
                None => None,
            }
        } else {
            None
        }
    }
}

/// Pass over the rest of an object, from just after its `{`.
pub open spec fn spec_skip_object(s: Seq<u8>, i: int, fuel: nat) -> Option<int>
    decreases fuel, 1int,
{
    let j = spec_ws(s, i);
    if at(s, j, 125) {
        Some(j + 1)
    } else {
        spec_skip_members(s, j, fuel)
    }
}

/// Pass over object members, from the first byte of a key.
pub open spec fn spec_skip_members(s: Seq<u8>, i: int, fuel: nat) -> Option<int>
    decreases fuel, 0int,
{
    if fuel == 0 {
        None
    } else {
        match spec_string(s, i) {
            None => None,
            Some((_k, j)) => {
                let j2 = spec_ws(s, j);
                if !at(s, j2, 58) {
                    None
                } else {
                    match spec_skip_value(s, spec_ws(s, j2 + 1), (fuel - 1) as nat) {
                        None => None,
                        Some(j3) => {
                            let j4 = spec_ws(s, j3);
                            if at(s, j4, 44) {
                                spec_skip_members(s, spec_ws(s, j4 + 1), (fuel - 1) as nat)
                            } else if at(s, j4, 125) {
                                Some(j4 + 1)
                            } else {
                                None
                            }
                        },
                    }
                }
            },
        }
    }
}

/// Pass over the rest of an array, from just after its `[`.
pub open spec fn spec_skip_array(s: Seq<u8>, i: int, fuel: nat) -> Option<int>
    decreases fuel, 1int,
{
    let j = spec_ws(s, i);
    if at(s, j, 93) {
        Some(j + 1)
    } else {
        spec_skip_elems(s, j, fuel)
    }
}

/// Pass over array elements, from the first byte of an element.
pub open spec fn spec_skip_elems(s: Seq<u8>, i: int, fuel: nat) -> Option<int>
    decreases fuel, 0int,
{
    if fuel == 0 {
        None
    } else {
        match spec_skip_value(s, i, (fuel - 1) as nat) {
            None => None,
            Some(j) => {
                let j2 = spec_ws(s, j);
                if at(s, j2, 44) {
                    spec_skip_elems(s, spec_ws(s, j2 + 1), (fuel - 1) as nat)
                } else if at(s, j2, 93) {
                    Some(j2 + 1)
                } else {
                    None
                }
            },
        }
    }
}

/// Pass over one complete value.
pub fn skip_value(s: &Vec<u8>, i: usize, fuel: usize) -> (r: Option<usize>)
    requires
        i <= s.len(),
    ensures
        match r {
            Some(j) => spec_skip_value(s@, i as int, fuel as nat) == Some(j as int) && j <= s.len(),
            None => spec_skip_value(s@, i as int, fuel as nat) is None,
        },
    decreases fuel, 2int,
{
    if i >= s.len() {
        return None;
    }
    let c = s[i];
    if c == 34 {
        match parse_string(s, i) {
            Some((_v, j)) => Some(j),
            None => None,
        }
    } else if c == 123 {
        skip_object(s, i + 1, fuel)
    } else if c == 91 {
        skip_array(s, i + 1, fuel)
    } else if c == 116 {
        if true_at(s, i) {
            Some(i + 4)
        } else {
            None
        }
    } else if c == 102 {
        if false_at(s, i) {
            Some(i + 5)
        } else {
            None
        }
    } else if c == 110 {
        if null_at(s, i) {
            Some(i + 4)
        } else {
            None
        }
    } else if c == 45 || (48 <= c && c <= 57) {
        match parse_number(s, i) {
            Some((_n, j)) => Some(j),
            None => None,
        }
    } else {
        None
    }
}

fn skip_object(s: &Vec<u8>, i: usize, fuel: usize) -> (r: Option<usize>)
    requires
        i <= s.len(),
    ensures
        match r {
            Some(j) => spec_skip_object(s@, i as int, fuel as nat) == Some(j as int) && j
                <= s.len(),
            None => spec_skip_object(s@, i as int, fuel as nat) is None,
        },
    decreases fuel, 1int,
{
    let j = skip_ws(s, i);
    if j < s.len() && s[j] == 125 {
        Some(j + 1)
    } else {
        skip_members(s, j, fuel)
    }
}

fn skip_members(s: &Vec<u8>, i: usize, fuel: usize) -> (r: Option<usize>)
    requires
        i <= s.len(),
    ensures
        match r {
            Some(j) => spec_skip_members(s@, i as int, fuel as nat) == Some(j as int) && j
                <= s.len(),
            None => spec_skip_members(s@, i as int, fuel as nat) is None,
        },
    decreases fuel, 0int,
{
    if fuel == 0 {
        return None;
    }
    match parse_string(s, i) {
        None => None,
        Some((_k, j)) => {
            let j2 = skip_ws(s, j);
            if !(j2 < s.len() && s[j2] == 58) {
                None
            } else {
                match skip_value(s, skip_ws(s, j2 + 1), fuel - 1) {
                    None => None,
                    Some(j3) => {
                        let j4 = skip_ws(s, j3);
                        if j4 < s.len() && s[j4] == 44 {
                            skip_members(s, skip_ws(s, j4 + 1), fuel - 1)
                        } else if j4 < s.len() && s[j4] == 125 {
                            Some(j4 + 1)
                        } else {
                            None
                        }
                    },
                }
            }
        },
    }
}

fn skip_array(s: &Vec<u8>, i: usize, fuel: usize) -> (r: Option<usize>)
    requires
        i <= s.len(),
    ensures
        match r {
            Some(j) => spec_skip_array(s@, i as int, fuel as nat) == Some(j as int) && j <= s.len(),
            None => spec_skip_array(s@, i as int, fuel as nat) is None,
        },
    decreases fuel, 1int,
{
    let j = skip_ws(s, i);
    if j < s.len() && s[j] == 93 {
        Some(j + 1)
    } else {
        skip_elems(s, j, fuel)
    }
}

fn skip_elems(s: &Vec<u8>, i: usize, fuel: usize) -> (r: Option<usize>)
    requires
        i <= s.len(),
    ensures
        match r {
            Some(j) => spec_skip_elems(s@, i as int, fuel as nat) == Some(j as int) && j <= s.len(),
            None => spec_skip_elems(s@, i as int, fuel as nat) is None,
        },
    decreases fuel, 0int,
{
    if fuel == 0 {
        return None;
    }
    match skip_value(s, i, fuel - 1) {
        None => None,
        Some(j) => {
            let j2 = skip_ws(s, j);
            if j2 < s.len() && s[j2] == 44 {
                skip_elems(s, skip_ws(s, j2 + 1), fuel - 1)
            } else if j2 < s.len() && s[j2] == 93 {
                Some(j2 + 1)
            } else {
                None
            }
        },
    }
}

} // verus!
