//! Signed 24.8 fixed-point numbers, as the Wayland wire format carries them,
//! and their conversions from and to integers.

use vstd::prelude::*;
use vstd::std_specs::convert::{FromSpecImpl, TryFromSpecImpl};

verus! {

/// A signed fixed-point number with 24 integer bits and 8 fraction bits,
/// stored as its raw 32-bit representation (the number times 256).
#[derive(Clone, Copy, Debug, Default, PartialEq, Eq, Structural, Hash, PartialOrd, Ord)]
pub struct Fixed {
    inner_value: i32,
}

impl Fixed {
    /// The raw representation: the number times 256.
    pub closed spec fn inner(self) -> i32 {
        self.inner_value
    }

    /// The number whose raw representation is `inner_value`.
    pub closed spec fn with_inner(inner_value: i32) -> Fixed {
        Fixed { inner_value }
    }

    /// The raw representation: the number times 256.
    pub fn inner_value(&self) -> (res: i32)
        ensures
            res == self.inner(),
    {
        self.inner_value
    }

    /// The number whose raw representation is `inner_value`.
    pub fn from_inner_value(inner_value: i32) -> (res: Self)
        ensures
            res == Fixed::with_inner(inner_value),
            res.inner() == inner_value,
    {
        Self { inner_value }
    }
}

/// A number is its raw representation: building from a representation keeps
/// it, and numbers with the same representation are equal.
pub proof fn lemma_fixed_inner(x: i32, a: Fixed, b: Fixed)
    ensures
        Fixed::with_inner(x).inner() == x,
        Fixed::with_inner(a.inner()) == a,
        a.inner() == b.inner() ==> a == b,
{
}

/// The raw representation of the integer `v`, where it is exact and fits.
pub open spec fn exact_inner(v: int) -> bool {
    i32::MIN <= v * 256 <= i32::MAX
}

/// The result of a conversion to `Fixed` that shifts `shifted` (the integer
/// times 256, wrapped to the source width) into the raw representation.
pub open spec fn fixed_from_shifted(shifted: int) -> Result<Fixed, ()> {
    if i32::MIN <= shifted <= i32::MAX {
        Ok(Fixed::with_inner(shifted as i32))
    } else {
        Err(())
    }
}

/// The integer that a fixed-point number is, where it has no fraction.
pub open spec fn integer_part(f: Fixed) -> Option<int> {
    if f.inner() % 256 == 0 {
        Some(f.inner() / 256)
    } else {
        None
    }
}

/// The integer that a fixed-point number is, where it has no fraction and
/// lies in `lo..=hi`.
pub open spec fn integer_in(f: Fixed, lo: int, hi: int) -> Option<int> {
    match integer_part(f) {
        Some(i) => if lo <= i <= hi {
            Some(i)
        } else {
            None
        },
        None => None,
    }
}

/// The fraction bits and the integer part of a raw representation.
proof fn lemma_split_fixed(inner: i32, frac_bits: i32, int_value: i32)
    requires
        frac_bits == inner & 0xFF,
        int_value == inner >> 8u32,
    ensures
        (frac_bits == 0) == (inner % 256 == 0),
        frac_bits == 0 ==> int_value == inner / 256,
{
    assert((frac_bits == 0) == (inner % 256 == 0)) by (bit_vector)
        requires
            frac_bits == inner & 0xFF,
    ;
    assert(frac_bits == 0 ==> int_value * 256 == inner) by (bit_vector)
        requires
            frac_bits == inner & 0xFF,
            int_value == inner >> 8u32,
    ;
}

/// A `u8` is exact as a fixed-point number.
impl From<u8> for Fixed {
    fn from(value: u8) -> (res: Self)
        ensures
            res.inner() == value * 256,
    {
        Self { inner_value: (value as i32) * 256 }
    }
}

impl FromSpecImpl<u8> for Fixed {
    open spec fn obeys_from_spec() -> bool {
        true
    }

    open spec fn from_spec(v: u8) -> Fixed {
        Fixed::with_inner((v * 256) as i32)
    }
}

/// A `i8` is exact as a fixed-point number.
impl From<i8> for Fixed {
    fn from(value: i8) -> (res: Self)
        ensures
            res.inner() == value * 256,
    {
        Self { inner_value: (value as i32) * 256 }
    }
}

impl FromSpecImpl<i8> for Fixed {
    open spec fn obeys_from_spec() -> bool {
        true
    }

    open spec fn from_spec(v: i8) -> Fixed {
        Fixed::with_inner((v * 256) as i32)
    }
}

/// A `u16` is exact as a fixed-point number.
impl From<u16> for Fixed {
    fn from(value: u16) -> (res: Self)
        ensures
            res.inner() == value * 256,
    {
        Self { inner_value: (value as i32) * 256 }
    }
}

impl FromSpecImpl<u16> for Fixed {
    open spec fn obeys_from_spec() -> bool {
        true
    }

    open spec fn from_spec(v: u16) -> Fixed {
        Fixed::with_inner((v * 256) as i32)
    }
}

/// A `i16` is exact as a fixed-point number.
impl From<i16> for Fixed {
    fn from(value: i16) -> (res: Self)
        ensures
            res.inner() == value * 256,
    {
        Self { inner_value: (value as i32) * 256 }
    }
}

impl FromSpecImpl<i16> for Fixed {
    open spec fn obeys_from_spec() -> bool {
        true
    }

    open spec fn from_spec(v: i16) -> Fixed {
        Fixed::with_inner((v * 256) as i32)
    }
}

/// A `u32` shifted left by 8 bits within its own width (upper bits are
/// lost, as with `checked_shl(8)`), then taken as the raw representation
/// where the shifted value fits in an `i32`.
impl TryFrom<u32> for Fixed {
    type Error = ();

    fn try_from(value: u32) -> (res: Result<Self, ()>)
        ensures
            res == fixed_from_shifted(vstd::wrapping::u32_specs::wrapping_mul(value, 256) as int),
    {
        let shifted = value.wrapping_mul(256);
        if shifted <= (i32::MAX as u32) {
            Ok(Self { inner_value: shifted as i32 })
        } else {
            Err(())
        }
    }
}

impl TryFromSpecImpl<u32> for Fixed {
    open spec fn obeys_try_from_spec() -> bool {
        true
    }

    open spec fn try_from_spec(v: u32) -> Result<Fixed, ()> {
        fixed_from_shifted(vstd::wrapping::u32_specs::wrapping_mul(v, 256) as int)
    }
}

/// A `i32` shifted left by 8 bits within its own width (upper bits are
/// lost, as with `checked_shl(8)`), then taken as the raw representation
/// where the shifted value fits in an `i32`.
impl TryFrom<i32> for Fixed {
    type Error = ();

    fn try_from(value: i32) -> (res: Result<Self, ()>)
        ensures
            res == fixed_from_shifted(vstd::wrapping::i32_specs::wrapping_mul(value, 256) as int),
    {
        let shifted = value.wrapping_mul(256);
        if (i32::MIN as i32) <= shifted && shifted <= (i32::MAX as i32) {
            Ok(Self { inner_value: shifted as i32 })
        } else {
            Err(())
        }
    }
}

impl TryFromSpecImpl<i32> for Fixed {
    open spec fn obeys_try_from_spec() -> bool {
        true
    }

    open spec fn try_from_spec(v: i32) -> Result<Fixed, ()> {
        fixed_from_shifted(vstd::wrapping::i32_specs::wrapping_mul(v, 256) as int)
    }
}

/// A `u64` shifted left by 8 bits within its own width (upper bits are
/// lost, as with `checked_shl(8)`), then taken as the raw representation
/// where the shifted value fits in an `i32`.
impl TryFrom<u64> for Fixed {
    type Error = ();

    fn try_from(value: u64) -> (res: Result<Self, ()>)
        ensures
            res == fixed_from_shifted(vstd::wrapping::u64_specs::wrapping_mul(value, 256) as int),
    {
        let shifted = value.wrapping_mul(256);
        if shifted <= (i32::MAX as u64) {
            Ok(Self { inner_value: shifted as i32 })
        } else {
            Err(())
        }
    }
}

impl TryFromSpecImpl<u64> for Fixed {
    open spec fn obeys_try_from_spec() -> bool {
        true
    }

    open spec fn try_from_spec(v: u64) -> Result<Fixed, ()> {
        fixed_from_shifted(vstd::wrapping::u64_specs::wrapping_mul(v, 256) as int)
    }
}

/// A `i64` shifted left by 8 bits within its own width (upper bits are
/// lost, as with `checked_shl(8)`), then taken as the raw representation
/// where the shifted value fits in an `i32`.
impl TryFrom<i64> for Fixed {
    type Error = ();

    fn try_from(value: i64) -> (res: Result<Self, ()>)
        ensures
            res == fixed_from_shifted(vstd::wrapping::i64_specs::wrapping_mul(value, 256) as int),
    {
        let shifted = value.wrapping_mul(256);
        if (i32::MIN as i64) <= shifted && shifted <= (i32::MAX as i64) {
            Ok(Self { inner_value: shifted as i32 })
        } else {
            Err(())
        }
    }
}

impl TryFromSpecImpl<i64> for Fixed {
    open spec fn obeys_try_from_spec() -> bool {
        true
    }

    open spec fn try_from_spec(v: i64) -> Result<Fixed, ()> {
        fixed_from_shifted(vstd::wrapping::i64_specs::wrapping_mul(v, 256) as int)
    }
}

/// A `u128` shifted left by 8 bits within its own width (upper bits are
/// lost, as with `checked_shl(8)`), then taken as the raw representation
/// where the shifted value fits in an `i32`.
impl TryFrom<u128> for Fixed {
    type Error = ();

    fn try_from(value: u128) -> (res: Result<Self, ()>)
        ensures
            res == fixed_from_shifted(vstd::wrapping::u128_specs::wrapping_mul(value, 256) as int),
    {
        let shifted = value.wrapping_mul(256);
        if shifted <= (i32::MAX as u128) {
            Ok(Self { inner_value: shifted as i32 })
        } else {
            Err(())
        }
    }
}

impl TryFromSpecImpl<u128> for Fixed {
    open spec fn obeys_try_from_spec() -> bool {
        true
    }

    open spec fn try_from_spec(v: u128) -> Result<Fixed, ()> {
        fixed_from_shifted(vstd::wrapping::u128_specs::wrapping_mul(v, 256) as int)
    }
}

/// A `i128` shifted left by 8 bits within its own width (upper bits are
/// lost, as with `checked_shl(8)`), then taken as the raw representation
/// where the shifted value fits in an `i32`.
impl TryFrom<i128> for Fixed {
    type Error = ();

    fn try_from(value: i128) -> (res: Result<Self, ()>)
        ensures
            res == fixed_from_shifted(vstd::wrapping::i128_specs::wrapping_mul(value, 256) as int),
    {
        let shifted = value.wrapping_mul(256);
        if (i32::MIN as i128) <= shifted && shifted <= (i32::MAX as i128) {
            Ok(Self { inner_value: shifted as i32 })
        } else {
            Err(())
        }
    }
}

impl TryFromSpecImpl<i128> for Fixed {
    open spec fn obeys_try_from_spec() -> bool {
        true
    }

    open spec fn try_from_spec(v: i128) -> Result<Fixed, ()> {
        fixed_from_shifted(vstd::wrapping::i128_specs::wrapping_mul(v, 256) as int)
    }
}

/// The integer that a fixed-point number is, where it has no fraction and
/// fits in a `u8`.
impl TryFrom<Fixed> for u8 {
    type Error = ();

    fn try_from(value: Fixed) -> (res: Result<u8, ()>)
        ensures
            res == (match integer_in(value, 0, 255) { Some(i) => Ok::<u8, ()>(i as u8), None => Err(()) }),
    {
        let inner = value.inner_value();
        let frac_bits = inner & 0xFF;
        let int_value = inner >> 8u32;
        proof {
            lemma_split_fixed(inner, frac_bits, int_value);
        }
        if frac_bits == 0 {
            if 0 <= int_value && int_value <= 255 {
                Ok(int_value as u8)
            } else {
                Err(())
            }
        } else {
            Err(())
        }
    }
}

impl TryFromSpecImpl<Fixed> for u8 {
    open spec fn obeys_try_from_spec() -> bool {
        true
    }

    open spec fn try_from_spec(v: Fixed) -> Result<u8, ()> {
        match integer_in(v, 0, 255) {
            Some(i) => Ok(i as u8),
            None => Err(()),
        }
    }
}

/// The integer that a fixed-point number is, where it has no fraction and
/// fits in a `i8`.
impl TryFrom<Fixed> for i8 {
    type Error = ();

    fn try_from(value: Fixed) -> (res: Result<i8, ()>)
        ensures
            res == (match integer_in(value, -128, 127) { Some(i) => Ok::<i8, ()>(i as i8), None => Err(()) }),
    {
        let inner = value.inner_value();
        let frac_bits = inner & 0xFF;
        let int_value = inner >> 8u32;
        proof {
            lemma_split_fixed(inner, frac_bits, int_value);
        }
        if frac_bits == 0 {
            if -128 <= int_value && int_value <= 127 {
                Ok(int_value as i8)
            } else {
                Err(())
            }
        } else {
            Err(())
        }
    }
}

impl TryFromSpecImpl<Fixed> for i8 {
    open spec fn obeys_try_from_spec() -> bool {
        true
    }

    open spec fn try_from_spec(v: Fixed) -> Result<i8, ()> {
        match integer_in(v, -128, 127) {
            Some(i) => Ok(i as i8),
            None => Err(()),
        }
    }
}

/// The integer that a fixed-point number is, where it has no fraction and
/// fits in a `u16`.
impl TryFrom<Fixed> for u16 {
    type Error = ();

    fn try_from(value: Fixed) -> (res: Result<u16, ()>)
        ensures
            res == (match integer_in(value, 0, 65535) { Some(i) => Ok::<u16, ()>(i as u16), None => Err(()) }),
    {
        let inner = value.inner_value();
        let frac_bits = inner & 0xFF;
        let int_value = inner >> 8u32;
        proof {
            lemma_split_fixed(inner, frac_bits, int_value);
        }
        if frac_bits == 0 {
            if 0 <= int_value && int_value <= 65535 {
                Ok(int_value as u16)
            } else {
                Err(())
            }
        } else {
            Err(())
        }
    }
}

impl TryFromSpecImpl<Fixed> for u16 {
    open spec fn obeys_try_from_spec() -> bool {
        true
    }

    open spec fn try_from_spec(v: Fixed) -> Result<u16, ()> {
        match integer_in(v, 0, 65535) {
            Some(i) => Ok(i as u16),
            None => Err(()),
        }
    }
}

/// The integer that a fixed-point number is, where it has no fraction and
/// fits in a `i16`.
impl TryFrom<Fixed> for i16 {
    type Error = ();

    fn try_from(value: Fixed) -> (res: Result<i16, ()>)
        ensures
            res == (match integer_in(value, -32768, 32767) { Some(i) => Ok::<i16, ()>(i as i16), None => Err(()) }),
    {
        let inner = value.inner_value();
        let frac_bits = inner & 0xFF;
        let int_value = inner >> 8u32;
        proof {
            lemma_split_fixed(inner, frac_bits, int_value);
        }
        if frac_bits == 0 {
            if -32768 <= int_value && int_value <= 32767 {
                Ok(int_value as i16)
            } else {
                Err(())
            }
        } else {
            Err(())
        }
    }
}

impl TryFromSpecImpl<Fixed> for i16 {
    open spec fn obeys_try_from_spec() -> bool {
        true
    }

    open spec fn try_from_spec(v: Fixed) -> Result<i16, ()> {
        match integer_in(v, -32768, 32767) {
            Some(i) => Ok(i as i16),
            None => Err(()),
        }
    }
}

/// The integer that a fixed-point number is, where it has no fraction and
/// fits in a `u32`.
impl TryFrom<Fixed> for u32 {
    type Error = ();

    fn try_from(value: Fixed) -> (res: Result<u32, ()>)
        ensures
            res == (match integer_in(value, 0, i32::MAX as int) { Some(i) => Ok::<u32, ()>(i as u32), None => Err(()) }),
    {
        let inner = value.inner_value();
        let frac_bits = inner & 0xFF;
        let int_value = inner >> 8u32;
        proof {
            lemma_split_fixed(inner, frac_bits, int_value);
        }
        if frac_bits == 0 {
            if 0 <= int_value {
                Ok(int_value as u32)
            } else {
                Err(())
            }
        } else {
            Err(())
        }
    }
}

impl TryFromSpecImpl<Fixed> for u32 {
    open spec fn obeys_try_from_spec() -> bool {
        true
    }

    open spec fn try_from_spec(v: Fixed) -> Result<u32, ()> {
        match integer_in(v, 0, i32::MAX as int) {
            Some(i) => Ok(i as u32),
            None => Err(()),
        }
    }
}

/// The integer that a fixed-point number is, where it has no fraction and
/// fits in a `i32`.
impl TryFrom<Fixed> for i32 {
    type Error = ();

    fn try_from(value: Fixed) -> (res: Result<i32, ()>)
        ensures
            res == (match integer_in(value, i32::MIN as int, i32::MAX as int) { Some(i) => Ok::<i32, ()>(i as i32), None => Err(()) }),
    {
        let inner = value.inner_value();
        let frac_bits = inner & 0xFF;
        let int_value = inner >> 8u32;
        proof {
            lemma_split_fixed(inner, frac_bits, int_value);
        }
        if frac_bits == 0 {
            Ok(int_value as i32)
        } else {
            Err(())
        }
    }
}

impl TryFromSpecImpl<Fixed> for i32 {
    open spec fn obeys_try_from_spec() -> bool {
        true
    }

    open spec fn try_from_spec(v: Fixed) -> Result<i32, ()> {
        match integer_in(v, i32::MIN as int, i32::MAX as int) {
            Some(i) => Ok(i as i32),
            None => Err(()),
        }
    }
}

/// The integer that a fixed-point number is, where it has no fraction and
/// fits in a `u64`.
impl TryFrom<Fixed> for u64 {
    type Error = ();

    fn try_from(value: Fixed) -> (res: Result<u64, ()>)
        ensures
            res == (match integer_in(value, 0, i32::MAX as int) { Some(i) => Ok::<u64, ()>(i as u64), None => Err(()) }),
    {
        let inner = value.inner_value();
        let frac_bits = inner & 0xFF;
        let int_value = inner >> 8u32;
        proof {
            lemma_split_fixed(inner, frac_bits, int_value);
        }
        if frac_bits == 0 {
            if 0 <= int_value {
                Ok(int_value as u64)
            } else {
                Err(())
            }
        } else {
            Err(())
        }
    }
}

impl TryFromSpecImpl<Fixed> for u64 {
    open spec fn obeys_try_from_spec() -> bool {
        true
    }

    open spec fn try_from_spec(v: Fixed) -> Result<u64, ()> {
        match integer_in(v, 0, i32::MAX as int) {
            Some(i) => Ok(i as u64),
            None => Err(()),
        }
    }
}

/// The integer that a fixed-point number is, where it has no fraction and
/// fits in a `i64`.
impl TryFrom<Fixed> for i64 {
    type Error = ();

    fn try_from(value: Fixed) -> (res: Result<i64, ()>)
        ensures
            res == (match integer_in(value, i32::MIN as int, i32::MAX as int) { Some(i) => Ok::<i64, ()>(i as i64), None => Err(()) }),
    {
        let inner = value.inner_value();
        let frac_bits = inner & 0xFF;
        let int_value = inner >> 8u32;
        proof {
            lemma_split_fixed(inner, frac_bits, int_value);
        }
        if frac_bits == 0 {
            Ok(int_value as i64)
        } else {
            Err(())
        }
    }
}

impl TryFromSpecImpl<Fixed> for i64 {
    open spec fn obeys_try_from_spec() -> bool {
        true
    }

    open spec fn try_from_spec(v: Fixed) -> Result<i64, ()> {
        match integer_in(v, i32::MIN as int, i32::MAX as int) {
            Some(i) => Ok(i as i64),
            None => Err(()),
        }
    }
}

/// The integer that a fixed-point number is, where it has no fraction and
/// fits in a `u128`.
impl TryFrom<Fixed> for u128 {
    type Error = ();

    fn try_from(value: Fixed) -> (res: Result<u128, ()>)
        ensures
            res == (match integer_in(value, 0, i32::MAX as int) { Some(i) => Ok::<u128, ()>(i as u128), None => Err(()) }),
    {
        let inner = value.inner_value();
        let frac_bits = inner & 0xFF;
        let int_value = inner >> 8u32;
        proof {
            lemma_split_fixed(inner, frac_bits, int_value);
        }
        if frac_bits == 0 {
            if 0 <= int_value {
                Ok(int_value as u128)
            } else {
                Err(())
            }
        } else {
            Err(())
        }
    }
}

impl TryFromSpecImpl<Fixed> for u128 {
    open spec fn obeys_try_from_spec() -> bool {
        true
    }

    open spec fn try_from_spec(v: Fixed) -> Result<u128, ()> {
        match integer_in(v, 0, i32::MAX as int) {
            Some(i) => Ok(i as u128),
            None => Err(()),
        }
    }
}

/// The integer that a fixed-point number is, where it has no fraction and
/// fits in a `i128`.
impl TryFrom<Fixed> for i128 {
    type Error = ();

    fn try_from(value: Fixed) -> (res: Result<i128, ()>)
        ensures
            res == (match integer_in(value, i32::MIN as int, i32::MAX as int) { Some(i) => Ok::<i128, ()>(i as i128), None => Err(()) }),
    {
        let inner = value.inner_value();
        let frac_bits = inner & 0xFF;
        let int_value = inner >> 8u32;
        proof {
            lemma_split_fixed(inner, frac_bits, int_value);
        }
        if frac_bits == 0 {
            Ok(int_value as i128)
        } else {
            Err(())
        }
    }
}

impl TryFromSpecImpl<Fixed> for i128 {
    open spec fn obeys_try_from_spec() -> bool {
        true
    }

    open spec fn try_from_spec(v: Fixed) -> Result<i128, ()> {
        match integer_in(v, i32::MIN as int, i32::MAX as int) {
            Some(i) => Ok(i as i128),
            None => Err(()),
        }
    }
}

/// An integer whose raw representation fits converts to a fixed-point number
/// exactly, and converting that number back to an integer gives the integer.
pub proof fn lemma_integer_round_trip(v: int)
    requires
        exact_inner(v),
    ensures
        fixed_from_shifted(v * 256) == Ok::<Fixed, ()>(Fixed::with_inner((v * 256) as i32)),
        integer_part(Fixed::with_inner((v * 256) as i32)) == Some(v),
{
    assert((v * 256) % 256 == 0 && (v * 256) / 256 == v) by (nonlinear_arith);
}

/// Converting from a wide integer type shifts without loss where the integer
/// is exact as a fixed-point number, so the round trip of
/// `lemma_integer_round_trip` holds for every source type.
pub proof fn lemma_shift_without_loss(a: u32, b: i32, c: u64, d: i64, e: u128, f: i128)
    ensures
        exact_inner(a as int) ==> vstd::wrapping::u32_specs::wrapping_mul(a, 256) == a * 256,
        exact_inner(b as int) ==> vstd::wrapping::i32_specs::wrapping_mul(b, 256) == b * 256,
        exact_inner(c as int) ==> vstd::wrapping::u64_specs::wrapping_mul(c, 256) == c * 256,
        exact_inner(d as int) ==> vstd::wrapping::i64_specs::wrapping_mul(d, 256) == d * 256,
        exact_inner(e as int) ==> vstd::wrapping::u128_specs::wrapping_mul(e, 256) == e * 256,
        exact_inner(f as int) ==> vstd::wrapping::i128_specs::wrapping_mul(f, 256) == f * 256,
{
    if exact_inner(b as int) && b < 0 {
        assert((b * 256) % 0x1_0000_0000 == b * 256 + 0x1_0000_0000) by (nonlinear_arith)
            requires
                -0x8000_0000 <= b * 256 < 0,
        ;
    }
    if exact_inner(d as int) && d < 0 {
        assert((d * 256) % 0x1_0000_0000_0000_0000 == d * 256 + 0x1_0000_0000_0000_0000)
            by (nonlinear_arith)
            requires
                -0x8000_0000 <= d * 256 < 0,
        ;
    }
    if exact_inner(f as int) && f < 0 {
        assert((f * 256) % 0x1_0000_0000_0000_0000_0000_0000_0000_0000int == f * 256
            + 0x1_0000_0000_0000_0000_0000_0000_0000_0000int) by (nonlinear_arith)
            requires
                -0x8000_0000 <= f * 256 < 0,
        ;
    }
}

} // verus!
