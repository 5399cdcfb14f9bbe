//! G.711 companding: compressing one linear 16-bit sample to one
//! mu-law or A-law byte, by segment and quantization step.

use vstd::prelude::*;

verus! {

/// The mu-law byte for a linear sample, after reduction to 14 bits.
pub open spec fn mulaw_spec(chan: i16) -> u8 {
    let x = chan >> 2;
    if x <= -8159 {
        0x00
    } else if x <= -4064 {
        (((x + 8159) as i16) >> 8) as u8
    } else if x <= -2016 {
        0x10 | (((x + 4063) as i16) >> 7) as u8
    } else if x <= -992 {
        0x20 | (((x + 2015) as i16) >> 6) as u8
    } else if x <= -480 {
        0x30 | (((x + 991) as i16) >> 5) as u8
    } else if x <= -224 {
        0x40 | (((x + 479) as i16) >> 4) as u8
    } else if x <= -96 {
        0x50 | (((x + 223) as i16) >> 3) as u8
    } else if x <= -32 {
        0x60 | (((x + 95) as i16) >> 2) as u8
    } else if x <= -1 {
        0x70 | (((x + 31) as i16) >> 1) as u8
    } else if x <= 30 {
        0xF0 | (((30 - x) as i16) >> 1) as u8
    } else if x <= 94 {
        0xE0 | (((94 - x) as i16) >> 2) as u8
    } else if x <= 222 {
        0xD0 | (((222 - x) as i16) >> 3) as u8
    } else if x <= 478 {
        0xC0 | (((478 - x) as i16) >> 4) as u8
    } else if x <= 990 {
        0xB0 | (((990 - x) as i16) >> 5) as u8
    } else if x <= 2014 {
        0xA0 | (((2014 - x) as i16) >> 6) as u8
    } else if x <= 4062 {
        0x90 | (((4062 - x) as i16) >> 7) as u8
    } else if x <= 8158 {
        0x80 | (((8158 - x) as i16) >> 8) as u8
    } else {
        0x80
    }
}

/// Compress one linear sample to its mu-law byte.
pub fn mulaw_compress(chan: i16) -> (r: u8)
    ensures
        r == mulaw_spec(chan),
{
    let x = chan >> 2;
    if x <= -8159 {
        0x00
    } else if x <= -4064 {
        ((x + 8159) >> 8) as u8
    } else if x <= -2016 {
        0x10 | ((x + 4063) >> 7) as u8
    } else if x <= -992 {
        0x20 | ((x + 2015) >> 6) as u8
    } else if x <= -480 {
        0x30 | ((x + 991) >> 5) as u8
    } else if x <= -224 {
        0x40 | ((x + 479) >> 4) as u8
    } else if x <= -96 {
        0x50 | ((x + 223) >> 3) as u8
    } else if x <= -32 {
        0x60 | ((x + 95) >> 2) as u8
    } else if x <= -1 {
        0x70 | ((x + 31) >> 1) as u8
    } else if x <= 30 {
        0xF0 | ((30 - x) >> 1) as u8
    } else if x <= 94 {
        0xE0 | ((94 - x) >> 2) as u8
    } else if x <= 222 {
        0xD0 | ((222 - x) >> 3) as u8
    } else if x <= 478 {
        0xC0 | ((478 - x) >> 4) as u8
    } else if x <= 990 {
        0xB0 | ((990 - x) >> 5) as u8
    } else if x <= 2014 {
        0xA0 | ((2014 - x) >> 6) as u8
    } else if x <= 4062 {
        0x90 | ((4062 - x) >> 7) as u8
    } else if x <= 8158 {
        0x80 | ((8158 - x) >> 8) as u8
    } else {
        0x80
    }
}

/// The A-law segment number of a clipped magnitude's high byte.
pub open spec fn alaw_segment(i: u16) -> u8 {
    if i < 2 {
        1
    } else if i < 4 {
        2
    } else if i < 8 {
        3
    } else if i < 16 {
        4
    } else if i < 32 {
        5
    } else if i < 64 {
        6
    } else {
        7
    }
}

/// The A-law byte for a linear sample.
pub open spec fn alaw_spec(chan: i16) -> u8 {
    let c = if chan == -32768 {
        -32767i16
    } else {
        chan
    };
    let sign = ((!c) >> 8) as u8 & 0x80;
    let m = if sign == 0 {
        (-c) as i16
    } else {
        c
    };
    let x = if m > 32635 {
        32635i16
    } else {
        m
    };
    let y = if x >= 256 {
        let exponent = alaw_segment(((x >> 8) & 0x7F) as u16);
        let mantissa = ((x >> ((exponent + 3) as u16)) & 0x0F) as u8;
        (exponent << 4) | mantissa
    } else {
        (x >> 4) as u8
    };
    y ^ sign ^ 0x55
}

/// The segment lookup, by range.
fn alaw_segment_exec(i: u16) -> (r: u8)
    ensures
        r == alaw_segment(i),
{
    if i < 2 {
        1
    } else if i < 4 {
        2
    } else if i < 8 {
        3
    } else if i < 16 {
        4
    } else if i < 32 {
        5
    } else if i < 64 {
        6
    } else {
        7
    }
}

/// Compress one linear sample to its A-law byte.
pub fn alaw_compress(chan: i16) -> (r: u8)
    ensures
        r == alaw_spec(chan),
{
    let c: i16 = if chan == -32768 {
        -32767
    } else {
        chan
    };
    let sign: u8 = ((!c) >> 8) as u8 & 0x80;
    let m: i16 = if sign == 0 {
        -c
    } else {
        c
    };
    let x: i16 = if m > 32635 {
        32635
    } else {
        m
    };
    let y: u8 = if x >= 256 {
        let exponent = alaw_segment_exec(((x >> 8) & 0x7F) as u16);
        let mantissa = ((x >> ((exponent + 3) as u16)) & 0x0F) as u8;
        (exponent << 4) | mantissa
    } else {
        (x >> 4) as u8
    };
    y ^ sign ^ 0x55
}

/// The linear sample for a mu-law byte: mantissa and the bias of 33,
/// scaled up by the segment, the bias removed again; code 0x7F is the
/// negative zero, read back as -1.
pub open spec fn mulaw_expand_spec(code: u8) -> i16 {
    let u = !code;
    let e = ((u / 16) % 8) as u16;
    let m = (u % 16) as u16;
    let base = (m * 8 + 132) as u16;
    let grown = if e == 0 {
        base
    } else if e == 1 {
        (base * 2) as u16
    } else if e == 2 {
        (base * 4) as u16
    } else if e == 3 {
        (base * 8) as u16
    } else if e == 4 {
        (base * 16) as u16
    } else if e == 5 {
        (base * 32) as u16
    } else if e == 6 {
        (base * 64) as u16
    } else {
        (base * 128) as u16
    };
    let x = (grown - 132) as u16;
    if u >= 128 {
        if x == 0 {
            -1i16
        } else {
            (0 - x) as i16
        }
    } else {
        x as i16
    }
}

/// Expand one mu-law byte to its linear sample.
pub fn mulaw_expand(code: u8) -> (r: i16)
    ensures
        r == mulaw_expand_spec(code),
{
    let u: u8 = !code;
    let e: u16 = ((u / 16) % 8) as u16;
    let m: u16 = (u % 16) as u16;
    let base: u16 = m * 8 + 132;
    let grown: u16 = if e == 0 {
        base
    } else if e == 1 {
        base * 2
    } else if e == 2 {
        base * 4
    } else if e == 3 {
        base * 8
    } else if e == 4 {
        base * 16
    } else if e == 5 {
        base * 32
    } else if e == 6 {
        base * 64
    } else {
        base * 128
    };
    let x: u16 = grown - 132;
    if u >= 128 {
        if x == 0 {
            -1
        } else {
            -(x as i16)
        }
    } else {
        x as i16
    }
}

/// The linear sample for an A-law byte: the even-bit mask removed,
/// then mantissa with half-step offset, scaled up by the segment.
pub open spec fn alaw_expand_spec(code: u8) -> i16 {
    let i = code ^ 0x55;
    let e = ((i / 16) % 8) as u16;
    let m = (i % 16) as u16;
    let x = if e == 0 {
        (m * 16 + 8) as u16
    } else {
        let base = (m * 16 + 264) as u16;
        if e == 1 {
            base
        } else if e == 2 {
            (base * 2) as u16
        } else if e == 3 {
            (base * 4) as u16
        } else if e == 4 {
            (base * 8) as u16
        } else if e == 5 {
            (base * 16) as u16
        } else if e == 6 {
            (base * 32) as u16
        } else {
            (base * 64) as u16
        }
    };
    if i >= 128 {
        x as i16
    } else {
        (0 - x) as i16
    }
}

/// Expand one A-law byte to its linear sample.
pub fn alaw_expand(code: u8) -> (r: i16)
    ensures
        r == alaw_expand_spec(code),
{
    let i: u8 = code ^ 0x55;
    let e: u16 = ((i / 16) % 8) as u16;
    let m: u16 = (i % 16) as u16;
    let x: u16 = if e == 0 {
        m * 16 + 8
    } else {
        let base: u16 = m * 16 + 264;
        if e == 1 {
            base
        } else if e == 2 {
            base * 2
        } else if e == 3 {
            base * 4
        } else if e == 4 {
            base * 8
        } else if e == 5 {
            base * 16
        } else if e == 6 {
            base * 32
        } else {
            base * 64
        }
    };
    if i >= 128 {
        x as i16
    } else {
        -(x as i16)
    }
}

} // verus!
