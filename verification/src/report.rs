//! Fixed-layout HID mouse report encoding.
//!
//! The wire format is four bytes: one buttons byte (bit 0 primary,
//! bit 1 secondary, the remaining bits zero) followed by three signed
//! bytes for x, y and wheel. Axes saturate at the signed 8-bit range;
//! the wheel is always zero in this pipeline.

use vstd::prelude::*;

verus! {

/// The report identifier under which the 4-byte payload is sent.
pub const TRACKPAD_REPORT_ID: u8 = 1;

/// A fixed-layout mouse input report.
#[derive(Clone, Copy, Debug, PartialEq, Eq, Structural)]
pub struct MouseReport {
    pub buttons: u8,
    pub x: i8,
    pub y: i8,
    pub wheel: i8,
}

/// An axis value clamped to the inclusive signed 8-bit range: out of
/// range inputs saturate rather than wrap.
pub open spec fn spec_clamp_axis(v: int) -> int {
    if v < -128 {
        -128
    } else if v > 127 {
        127
    } else {
        v
    }
}

/// The buttons byte: bit 0 set for the primary button, bit 1 for the
/// secondary, every other bit zero.
pub open spec fn spec_buttons_byte(primary: bool, secondary: bool) -> u8 {
    ((if primary {
        1int
    } else {
        0int
    }) + (if secondary {
        2int
    } else {
        0int
    })) as u8
}

/// What `encode` returns for given buttons and (already accelerated)
/// axis deltas.
pub open spec fn spec_encode(primary: bool, secondary: bool, dx: int, dy: int) -> MouseReport {
    MouseReport {
        buttons: spec_buttons_byte(primary, secondary),
        x: spec_clamp_axis(dx) as i8,
        y: spec_clamp_axis(dy) as i8,
        wheel: 0,
    }
}

/// Clamp one axis delta to the signed 8-bit range.
pub fn clamp_axis(v: i64) -> (r: i8)
    ensures
        r as int == spec_clamp_axis(v as int),
{
    if v < -128 {
        -128
    } else if v > 127 {
        127
    } else {
        v as i8
    }
}

/// Pack button flags and axis deltas into a mouse report: each axis
/// saturates at the signed 8-bit range, the wheel byte stays zero.
pub fn encode(primary: bool, secondary: bool, dx: i64, dy: i64) -> (r: MouseReport)
    ensures
        r == spec_encode(primary, secondary, dx as int, dy as int),
{
    let buttons: u8 = (if primary {
        1
    } else {
        0
    }) + (if secondary {
        2
    } else {
        0
    });
    MouseReport { buttons, x: clamp_axis(dx), y: clamp_axis(dy), wheel: 0 }
}

/// The unsigned byte that carries a signed axis value on the wire
/// (two's complement).
pub open spec fn spec_u8_of_i8(x: i8) -> u8 {
    if x >= 0 {
        x as u8
    } else {
        (x + 256) as u8
    }
}

impl MouseReport {
    /// The report's exact wire image: buttons, x, y, wheel.
    pub open spec fn spec_bytes(self) -> Seq<u8> {
        seq![self.buttons, spec_u8_of_i8(self.x), spec_u8_of_i8(self.y), spec_u8_of_i8(self.wheel)]
    }

    /// Serialize the report to its 4-byte wire image.
    pub fn to_bytes(&self) -> (b: Vec<u8>)
        ensures
            b@ == self.spec_bytes(),
    {
        let mut b: Vec<u8> = Vec::new();
        b.push(self.buttons);
        b.push(u8_of_i8(self.x));
        b.push(u8_of_i8(self.y));
        b.push(u8_of_i8(self.wheel));
        proof {
            assert(b@ =~= self.spec_bytes());
        }
        b
    }
}

/// The wire byte of one signed axis value.
fn u8_of_i8(x: i8) -> (b: u8)
    ensures
        b == spec_u8_of_i8(x),
{
    if x >= 0 {
        x as u8
    } else {
        ((x as i16) + 256) as u8
    }
}

/// Law: clamping is idempotent, and a value already within the signed
/// 8-bit range is left unchanged - so re-encoding an encoded axis
/// changes nothing.
pub proof fn lemma_clamp_idempotent(v: int)
    ensures
        spec_clamp_axis(spec_clamp_axis(v)) == spec_clamp_axis(v),
        -128 <= v <= 127 ==> spec_clamp_axis(v) == v,
{
}

/// Law: an in-range pair of deltas is encoded as it stands, and the
/// axes of any encoded report re-encode to themselves.
pub proof fn lemma_encode_in_range_identity(primary: bool, secondary: bool, dx: int, dy: int)
    requires
        -128 <= dx <= 127,
        -128 <= dy <= 127,
    ensures
        spec_encode(primary, secondary, dx, dy).x as int == dx,
        spec_encode(primary, secondary, dx, dy).y as int == dy,
{
}

/// Law: encoding is idempotent - feeding an encoded report's axes back
/// through `encode` reproduces the report byte for byte.
pub proof fn lemma_encode_idempotent(primary: bool, secondary: bool, dx: int, dy: int)
    ensures
        spec_encode(primary, secondary, spec_encode(primary, secondary, dx, dy).x as int,
            spec_encode(primary, secondary, dx, dy).y as int) == spec_encode(primary, secondary,
            dx, dy),
{
    lemma_clamp_idempotent(dx);
    lemma_clamp_idempotent(dy);
}

/// Law: the buttons byte packs the primary button into bit 0 and the
/// secondary button into bit 1, and leaves the six padding bits zero.
pub proof fn lemma_buttons_byte_bits(primary: bool, secondary: bool)
    ensures
        spec_buttons_byte(primary, secondary) & 0x01 == (if primary {
            1u8
        } else {
            0u8
        }),
        spec_buttons_byte(primary, secondary) & 0x02 == (if secondary {
            2u8
        } else {
            0u8
        }),
        spec_buttons_byte(primary, secondary) & 0xfc == 0,
{
    let b = spec_buttons_byte(primary, secondary);
    assert(b == 0 || b == 1 || b == 2 || b == 3);
    assert(0u8 & 0x01 == 0 && 0u8 & 0x02 == 0 && 0u8 & 0xfc == 0) by (bit_vector);
    assert(1u8 & 0x01 == 1 && 1u8 & 0x02 == 0 && 1u8 & 0xfc == 0) by (bit_vector);
    assert(2u8 & 0x01 == 0 && 2u8 & 0x02 == 2 && 2u8 & 0xfc == 0) by (bit_vector);
    assert(3u8 & 0x01 == 1 && 3u8 & 0x02 == 2 && 3u8 & 0xfc == 0) by (bit_vector);
}

} // verus!
