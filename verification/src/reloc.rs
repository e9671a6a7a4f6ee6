//! The relocation model for the x86-64 target: the closed set of relocation
//! kinds, and the two patching operations every kind supports — writing a
//! PC-relative displacement, or an absolute value, into a field of a byte
//! buffer. Fields are little-endian.

use vstd::prelude::*;

verus! {

/// The closed set of relocation kinds of the x86-64 target.
///
/// `Pc32` and `Pc8` are relative-only; `Direct64`, `Direct32` and
/// `Direct32S` are absolute-only; `NoReloc` accepts both and patches
/// nothing. (`Direct32` zero-extends, `Direct32S` sign-extends; the
/// distinction shows only in which values are representable.)
#[derive(Clone, Copy, PartialEq, Eq, Structural, Debug)]
pub enum RelocationKind {
    NoReloc,
    Direct64,
    Pc32,
    Direct32,
    Direct32S,
    Pc8,
}

/// Why a relocation could not be applied.
#[derive(Clone, Copy, PartialEq, Eq, Structural, Debug)]
pub enum InvalidRelocationReason {
    /// The patched field would reach past the end of the section.
    PastEndOfSection,
    /// A relative displacement does not fit the field.
    DifferenceTooLarge,
    /// An absolute value does not fit the field.
    ValueOutOfRange,
    /// The kind cannot be applied in the requested mode (relative or
    /// absolute), or the addend moved the resolved value outside the
    /// machine's range.
    DisallowedModeForKind,
    /// The addend moved a resolved value outside the representable range.
    AddendOutOfRange,
}

impl InvalidRelocationReason {
    /// The human-readable descriptor of this reason.
    pub fn description(self) -> (r: &'static str) {
        match self {
            InvalidRelocationReason::PastEndOfSection => "Attempted to apply relocation past end of section",
            InvalidRelocationReason::DifferenceTooLarge => "Relative relocation difference too large",
            InvalidRelocationReason::ValueOutOfRange => "Absolute relocation value out of range",
            InvalidRelocationReason::DisallowedModeForKind => "Disallowed mode for relocation kind",
            InvalidRelocationReason::AddendOutOfRange => "Addend placed value outside of range",
        }
    }
}

impl RelocationKind {
    /// Width in bytes of the field this kind patches.
    pub open spec fn width(self) -> nat {
        match self {
            RelocationKind::NoReloc => 0,
            RelocationKind::Direct64 => 8,
            RelocationKind::Pc32 => 4,
            RelocationKind::Direct32 => 4,
            RelocationKind::Direct32S => 4,
            RelocationKind::Pc8 => 1,
        }
    }
}

/// The little-endian bytes of a 32-bit value.
pub open spec fn le4(u: u32) -> Seq<u8> {
    seq![
        (u % 0x100) as u8,
        ((u / 0x100) % 0x100) as u8,
        ((u / 0x10000) % 0x100) as u8,
        ((u / 0x1000000) % 0x100) as u8,
    ]
}

/// The little-endian bytes of a 64-bit value.
pub open spec fn le8(u: u64) -> Seq<u8> {
    seq![
        (u % 0x100) as u8,
        ((u / 0x100) % 0x100) as u8,
        ((u / 0x10000) % 0x100) as u8,
        ((u / 0x1000000) % 0x100) as u8,
        ((u / 0x100000000) % 0x100) as u8,
        ((u / 0x10000000000) % 0x100) as u8,
        ((u / 0x1000000000000) % 0x100) as u8,
        ((u / 0x100000000000000) % 0x100) as u8,
    ]
}

/// The unsigned number read back, little-endian, from the four bytes of
/// `data` starting at `loc`.
pub open spec fn read4(data: Seq<u8>, loc: int) -> int {
    data[loc] + 0x100 * data[loc + 1] + 0x10000 * data[loc + 2] + 0x1000000 * data[loc + 3]
}

/// The unsigned number read back, little-endian, from the eight bytes of
/// `data` starting at `loc`.
pub open spec fn read8(data: Seq<u8>, loc: int) -> int {
    data[loc] + 0x100 * data[loc + 1] + 0x10000 * data[loc + 2] + 0x1000000 * data[loc + 3]
        + 0x100000000 * data[loc + 4] + 0x10000000000 * data[loc + 5]
        + 0x1000000000000 * data[loc + 6] + 0x100000000000000 * data[loc + 7]
}

/// The two's-complement image of `v` modulo `m` (a power of two; `v` must
/// lie in `[-m/2, m/2)`).
pub open spec fn to_2c(v: int, m: int) -> int {
    if v < 0 {
        v + m
    } else {
        v
    }
}

/// The signed value in `[-m/2, m/2)` whose two's-complement image modulo
/// `m` is `u`.
pub open spec fn from_2c(u: int, m: int) -> int {
    if u >= m / 2 {
        u - m
    } else {
        u
    }
}

/// `data` with the `bytes.len()` bytes starting at `loc` replaced by `bytes`.
pub open spec fn splice(data: Seq<u8>, loc: int, bytes: Seq<u8>) -> Seq<u8> {
    data.take(loc) + bytes + data.skip(loc + bytes.len())
}

/// What applying `kind` relatively does: the patched buffer, or the reason
/// it fails. The displacement written is `value - location`.
pub open spec fn spec_apply_relative(kind: RelocationKind, data: Seq<u8>, location: int, value: int) -> Result<
    Seq<u8>,
    InvalidRelocationReason,
> {
    match kind {
        RelocationKind::NoReloc => Ok(data),
        RelocationKind::Pc32 => {
            if location + 4 > data.len() {
                Err(InvalidRelocationReason::PastEndOfSection)
            } else if value - location < -0x8000_0000 || value - location > 0x7fff_ffff {
                Err(InvalidRelocationReason::DifferenceTooLarge)
            } else {
                Ok(splice(data, location, le4(to_2c(value - location, 0x1_0000_0000) as u32)))
            }
        },
        RelocationKind::Pc8 => {
            if location + 1 > data.len() {
                Err(InvalidRelocationReason::PastEndOfSection)
            } else if value - location < -0x80 || value - location > 0x7f {
                Err(InvalidRelocationReason::DifferenceTooLarge)
            } else {
                Ok(splice(data, location, seq![to_2c(value - location, 0x100) as u8]))
            }
        },
        _ => Err(InvalidRelocationReason::DisallowedModeForKind),
    }
}

/// What applying `kind` absolutely does: the patched buffer, or the reason
/// it fails.
pub open spec fn spec_apply_absolute(kind: RelocationKind, data: Seq<u8>, location: int, value: int) -> Result<
    Seq<u8>,
    InvalidRelocationReason,
> {
    match kind {
        RelocationKind::NoReloc => Ok(data),
        RelocationKind::Direct64 => {
            if location + 8 > data.len() {
                Err(InvalidRelocationReason::PastEndOfSection)
            } else {
                Ok(splice(data, location, le8(to_2c(value, 0x1_0000_0000_0000_0000) as u64)))
            }
        },
        RelocationKind::Direct32 => {
            if location + 4 > data.len() {
                Err(InvalidRelocationReason::PastEndOfSection)
            } else if value < 0 || value > 0xffff_ffff {
                Err(InvalidRelocationReason::ValueOutOfRange)
            } else {
                Ok(splice(data, location, le4(value as u32)))
            }
        },
        RelocationKind::Direct32S => {
            if location + 4 > data.len() {
                Err(InvalidRelocationReason::PastEndOfSection)
            } else if value < -0x8000_0000 || value > 0x7fff_ffff {
                Err(InvalidRelocationReason::ValueOutOfRange)
            } else {
                Ok(splice(data, location, le4(to_2c(value, 0x1_0000_0000) as u32)))
            }
        },
        _ => Err(InvalidRelocationReason::DisallowedModeForKind),
    }
}

/// Writes the four little-endian bytes of `u` at `loc`.
fn write_le4(data: &mut Vec<u8>, loc: usize, u: u32)
    requires
        loc + 4 <= old(data).len(),
    ensures
        final(data)@ == splice(old(data)@, loc as int, le4(u)),
{
    let b0: u8 = (u % 0x100) as u8;
    let b1: u8 = ((u / 0x100) % 0x100) as u8;
    let b2: u8 = ((u / 0x10000) % 0x100) as u8;
    let b3: u8 = ((u / 0x1000000) % 0x100) as u8;
    data.set(loc, b0);
    data.set(loc + 1, b1);
    data.set(loc + 2, b2);
    data.set(loc + 3, b3);
    proof {
        assert(data@ =~= splice(old(data)@, loc as int, le4(u)));
    }
}

/// Writes the eight little-endian bytes of `u` at `loc`.
fn write_le8(data: &mut Vec<u8>, loc: usize, u: u64)
    requires
        loc + 8 <= old(data).len(),
    ensures
        final(data)@ == splice(old(data)@, loc as int, le8(u)),
{
    let b0: u8 = (u % 0x100) as u8;
    let b1: u8 = ((u / 0x100) % 0x100) as u8;
    let b2: u8 = ((u / 0x10000) % 0x100) as u8;
    let b3: u8 = ((u / 0x1000000) % 0x100) as u8;
    let b4: u8 = ((u / 0x100000000) % 0x100) as u8;
    let b5: u8 = ((u / 0x10000000000) % 0x100) as u8;
    let b6: u8 = ((u / 0x1000000000000) % 0x100) as u8;
    let b7: u8 = ((u / 0x100000000000000) % 0x100) as u8;
    data.set(loc, b0);
    data.set(loc + 1, b1);
    data.set(loc + 2, b2);
    data.set(loc + 3, b3);
    data.set(loc + 4, b4);
    data.set(loc + 5, b5);
    data.set(loc + 6, b6);
    data.set(loc + 7, b7);
    proof {
        assert(data@ =~= splice(old(data)@, loc as int, le8(u)));
    }
}

impl RelocationKind {
    /// Patches a PC-relative displacement of `value - location` into the
    /// field at `location`. Exactly [`spec_apply_relative`].
    pub fn apply_relative(self, data: &mut Vec<u8>, location: usize, value: usize) -> (r: Result<
        (),
        InvalidRelocationReason,
    >)
        ensures
            match spec_apply_relative(self, old(data)@, location as int, value as int) {
                Ok(patched) => r == Ok::<(), InvalidRelocationReason>(()) && final(data)@ == patched,
                Err(reason) => r == Err::<(), InvalidRelocationReason>(reason) && final(data)@ == old(data)@,
            },
    {
        match self {
            RelocationKind::NoReloc => Ok(()),
            RelocationKind::Pc32 => {
                if data.len() < 4 || location > data.len() - 4 {
                    return Err(InvalidRelocationReason::PastEndOfSection);
                }
                let d: i128 = value as i128 - location as i128;
                if d < -0x8000_0000i128 || d > 0x7fff_ffffi128 {
                    return Err(InvalidRelocationReason::DifferenceTooLarge);
                }
                let u: u32 = if d < 0 {
                    (d + 0x1_0000_0000i128) as u32
                } else {
                    d as u32
                };
                write_le4(data, location, u);
                Ok(())
            },
            RelocationKind::Pc8 => {
                if data.len() < 1 || location > data.len() - 1 {
                    return Err(InvalidRelocationReason::PastEndOfSection);
                }
                let d: i128 = value as i128 - location as i128;
                if d < -0x80i128 || d > 0x7fi128 {
                    return Err(InvalidRelocationReason::DifferenceTooLarge);
                }
                let u: u8 = if d < 0 {
                    (d + 0x100i128) as u8
                } else {
                    d as u8
                };
                data.set(location, u);
                proof {
                    assert(data@ =~= splice(old(data)@, location as int, seq![u]));
                }
                Ok(())
            },
            _ => Err(InvalidRelocationReason::DisallowedModeForKind),
        }
    }

    /// Patches the absolute integer `value` into the field at `location`.
    /// Exactly [`spec_apply_absolute`].
    pub fn apply_absolute(self, data: &mut Vec<u8>, location: usize, value: isize) -> (r: Result<
        (),
        InvalidRelocationReason,
    >)
        ensures
            match spec_apply_absolute(self, old(data)@, location as int, value as int) {
                Ok(patched) => r == Ok::<(), InvalidRelocationReason>(()) && final(data)@ == patched,
                Err(reason) => r == Err::<(), InvalidRelocationReason>(reason) && final(data)@ == old(data)@,
            },
    {
        match self {
            RelocationKind::NoReloc => Ok(()),
            RelocationKind::Direct64 => {
                if data.len() < 8 || location > data.len() - 8 {
                    return Err(InvalidRelocationReason::PastEndOfSection);
                }
                let u: u64 = if value < 0 {
                    proof {
                        assert(to_2c(value as int, 0x1_0000_0000_0000_0000) == value + 0x1_0000_0000_0000_0000);
                    }
                    ((value as i128) + 0x1_0000_0000_0000_0000i128) as u64
                } else {
                    value as u64
                };
                write_le8(data, location, u);
                Ok(())
            },
            RelocationKind::Direct32 => {
                if data.len() < 4 || location > data.len() - 4 {
                    return Err(InvalidRelocationReason::PastEndOfSection);
                }
                let v: i128 = value as i128;
                if v < 0 || v > 0xffff_ffffi128 {
                    return Err(InvalidRelocationReason::ValueOutOfRange);
                }
                write_le4(data, location, v as u32);
                Ok(())
            },
            RelocationKind::Direct32S => {
                if data.len() < 4 || location > data.len() - 4 {
                    return Err(InvalidRelocationReason::PastEndOfSection);
                }
                let v: i128 = value as i128;
                if v < -0x8000_0000i128 || v > 0x7fff_ffffi128 {
                    return Err(InvalidRelocationReason::ValueOutOfRange);
                }
                let u: u32 = if v < 0 {
                    (v + 0x1_0000_0000i128) as u32
                } else {
                    v as u32
                };
                write_le4(data, location, u);
                Ok(())
            },
            _ => Err(InvalidRelocationReason::DisallowedModeForKind),
        }
    }
}

proof fn lemma_le4_value(u: u32)
    ensures
        read4(le4(u), 0) == u,
{
    let x = u as int;
    vstd::arithmetic::div_mod::lemma_fundamental_div_mod(x, 0x100);
    vstd::arithmetic::div_mod::lemma_fundamental_div_mod(x / 0x100, 0x100);
    vstd::arithmetic::div_mod::lemma_fundamental_div_mod(x / 0x10000, 0x100);
    vstd::arithmetic::div_mod::lemma_div_denominator(x, 0x100, 0x100);
    vstd::arithmetic::div_mod::lemma_div_denominator(x, 0x10000, 0x100);
    vstd::arithmetic::div_mod::lemma_div_is_ordered(x, 0xffff_ffff, 0x1000000);
    vstd::arithmetic::div_mod::lemma_small_mod((x / 0x1000000) as nat, 0x100);
}

proof fn lemma_le8_value(u: u64)
    ensures
        read8(le8(u), 0) == u,
{
    let x = u as int;
    vstd::arithmetic::div_mod::lemma_fundamental_div_mod(x, 0x100);
    vstd::arithmetic::div_mod::lemma_fundamental_div_mod(x / 0x100, 0x100);
    vstd::arithmetic::div_mod::lemma_fundamental_div_mod(x / 0x10000, 0x100);
    vstd::arithmetic::div_mod::lemma_fundamental_div_mod(x / 0x1000000, 0x100);
    vstd::arithmetic::div_mod::lemma_fundamental_div_mod(x / 0x100000000, 0x100);
    vstd::arithmetic::div_mod::lemma_fundamental_div_mod(x / 0x10000000000, 0x100);
    vstd::arithmetic::div_mod::lemma_fundamental_div_mod(x / 0x1000000000000, 0x100);
    vstd::arithmetic::div_mod::lemma_div_denominator(x, 0x100, 0x100);
    vstd::arithmetic::div_mod::lemma_div_denominator(x, 0x10000, 0x100);
    vstd::arithmetic::div_mod::lemma_div_denominator(x, 0x1000000, 0x100);
    vstd::arithmetic::div_mod::lemma_div_denominator(x, 0x100000000, 0x100);
    vstd::arithmetic::div_mod::lemma_div_denominator(x, 0x10000000000, 0x100);
    vstd::arithmetic::div_mod::lemma_div_denominator(x, 0x1000000000000, 0x100);
    vstd::arithmetic::div_mod::lemma_div_is_ordered(x, 0xffff_ffff_ffff_ffff, 0x100000000000000);
    vstd::arithmetic::div_mod::lemma_small_mod((x / 0x100000000000000) as nat, 0x100);
}

proof fn lemma_splice_reads(data: Seq<u8>, loc: int, bytes: Seq<u8>)
    requires
        0 <= loc,
        loc + bytes.len() <= data.len(),
    ensures
        forall|i: int| 0 <= i < bytes.len() ==> #[trigger] splice(data, loc, bytes)[loc + i] == bytes[i],
{
    assert forall|i: int| 0 <= i < bytes.len() implies #[trigger] splice(data, loc, bytes)[loc + i]
        == bytes[i] by {
        assert(splice(data, loc, bytes)[loc + i] == (data.take(loc) + bytes + data.skip(
            loc + bytes.len(),
        ))[loc + i]);
    }
}

/// Round trip for `Pc32`: whenever applying succeeds, the field read back
/// from the patched buffer is exactly the displacement `value - location`,
/// as a 32-bit two's-complement number.
pub proof fn lemma_pc32_round_trip(data: Seq<u8>, location: int, value: int)
    requires
        0 <= location,
    ensures
        spec_apply_relative(RelocationKind::Pc32, data, location, value) matches Ok(patched)
            ==> from_2c(read4(patched, location), 0x1_0000_0000) == value - location,
{
    if spec_apply_relative(RelocationKind::Pc32, data, location, value) is Ok {
        let d = value - location;
        let u = to_2c(d, 0x1_0000_0000) as u32;
        lemma_le4_value(u);
        lemma_splice_reads(data, location, le4(u));
        let patched = splice(data, location, le4(u));
        assert(read4(patched, location) == read4(le4(u), 0));
    }
}

/// Round trip for `Pc8`: the byte read back is the displacement as an 8-bit
/// two's-complement number.
pub proof fn lemma_pc8_round_trip(data: Seq<u8>, location: int, value: int)
    requires
        0 <= location,
    ensures
        spec_apply_relative(RelocationKind::Pc8, data, location, value) matches Ok(patched)
            ==> from_2c(patched[location] as int, 0x100) == value - location,
{
    if spec_apply_relative(RelocationKind::Pc8, data, location, value) is Ok {
        let d = value - location;
        let u = to_2c(d, 0x100) as u8;
        lemma_splice_reads(data, location, seq![u]);
    }
}

/// Round trip for `Direct64`: every `isize` value is representable, and the
/// eight bytes read back are the value as a 64-bit two's-complement number.
pub proof fn lemma_direct64_round_trip(data: Seq<u8>, location: int, value: int)
    requires
        0 <= location,
        -0x8000_0000_0000_0000 <= value < 0x8000_0000_0000_0000,
    ensures
        spec_apply_absolute(RelocationKind::Direct64, data, location, value) matches Ok(patched)
            ==> from_2c(read8(patched, location), 0x1_0000_0000_0000_0000) == value,
{
    if spec_apply_absolute(RelocationKind::Direct64, data, location, value) is Ok {
        let u = to_2c(value, 0x1_0000_0000_0000_0000) as u64;
        lemma_le8_value(u);
        lemma_splice_reads(data, location, le8(u));
        let patched = splice(data, location, le8(u));
        assert(read8(patched, location) == read8(le8(u), 0));
    }
}

/// Round trip for `Direct32`: whenever applying succeeds, the field read
/// back is exactly the (zero-extended) value.
pub proof fn lemma_direct32_round_trip(data: Seq<u8>, location: int, value: int)
    requires
        0 <= location,
    ensures
        spec_apply_absolute(RelocationKind::Direct32, data, location, value) matches Ok(patched)
            ==> read4(patched, location) == value,
{
    if spec_apply_absolute(RelocationKind::Direct32, data, location, value) is Ok {
        let u = value as u32;
        lemma_le4_value(u);
        lemma_splice_reads(data, location, le4(u));
        let patched = splice(data, location, le4(u));
        assert(read4(patched, location) == read4(le4(u), 0));
    }
}

/// Round trip for `Direct32S`: whenever applying succeeds, the field read
/// back is the value as a 32-bit two's-complement number.
pub proof fn lemma_direct32s_round_trip(data: Seq<u8>, location: int, value: int)
    requires
        0 <= location,
    ensures
        spec_apply_absolute(RelocationKind::Direct32S, data, location, value) matches Ok(patched)
            ==> from_2c(read4(patched, location), 0x1_0000_0000) == value,
{
    if spec_apply_absolute(RelocationKind::Direct32S, data, location, value) is Ok {
        let u = to_2c(value, 0x1_0000_0000) as u32;
        lemma_le4_value(u);
        lemma_splice_reads(data, location, le4(u));
        let patched = splice(data, location, le4(u));
        assert(read4(patched, location) == read4(le4(u), 0));
    }
}

} // verus!
