//! Text helpers of the protocol description reader: comparing strings and
//! parsing unsigned integers the way `u32::from_str_radix` does.

use vstd::prelude::*;
use vstd::utf8::*;
use vstd::slice::slice_subrange;

verus! {

/// Whether two strings hold the same characters.
pub fn str_equal(a: &str, b: &str) -> (res: bool)
    ensures
        res == (a@ == b@),
{
    let x = a.as_bytes();
    let y = b.as_bytes();
    proof {
        encode_utf8_decode_utf8(a@);
        encode_utf8_decode_utf8(b@);
    }
    if x.len() != y.len() {
        return false;
    }
    let mut i: usize = 0;
    while i < x.len()
        invariant
            x@ == encode_utf8(a@),
            y@ == encode_utf8(b@),
            x@.len() == y@.len(),
            0 <= i <= x@.len(),
            forall|j: int| 0 <= j < i ==> x@[j] == y@[j],
        decreases x@.len() - i,
    {
        if x[i] != y[i] {
            return false;
        }
        i = i + 1;
    }
    assert(x@ =~= y@);
    true
}

/// Why a string is not an unsigned integer.
#[derive(Clone, Copy, Debug, PartialEq, Eq, Structural, Hash, PartialOrd, Ord)]
pub enum IntParseError {
    /// The string is empty.
    Empty,
    /// A byte is not a digit in the radix.
    InvalidDigit,
    /// The number does not fit in 32 bits.
    PosOverflow,
}

/// The value of the byte `c` as a digit in `radix` (at most 36), as
/// `char::to_digit` gives it.
pub open spec fn digit_value(c: u8, radix: u32) -> Option<u32> {
    let d: int = if 48 <= c <= 57 {
        c - 48
    } else if 97 <= c <= 122 {
        c - 97 + 10
    } else if 65 <= c <= 90 {
        c - 65 + 10
    } else {
        36
    };
    if d < radix {
        Some(d as u32)
    } else {
        None
    }
}

/// The number that the digits `ds` spell in `radix`, read from the left;
/// the first refused digit, or the first digit at which the number exceeds
/// 32 bits, decides the error.
pub open spec fn accumulate_digits(ds: Seq<u8>, radix: u32) -> Result<u32, IntParseError>
    decreases ds.len(),
{
    if ds.len() == 0 {
        Ok(0)
    } else {
        match accumulate_digits(ds.drop_last(), radix) {
            Err(e) => Err(e),
            Ok(v) => match digit_value(ds.last(), radix) {
                None => Err(IntParseError::InvalidDigit),
                Some(d) => if v * radix + d > u32::MAX {
                    Err(IntParseError::PosOverflow)
                } else {
                    Ok((v * radix + d) as u32)
                },
            },
        }
    }
}

/// `u32::from_str_radix` on the bytes `src`: an optional leading `+`, then
/// digits.
pub open spec fn from_str_radix_spec(src: Seq<u8>, radix: u32) -> Result<u32, IntParseError> {
    if src.len() == 0 {
        Err(IntParseError::Empty)
    } else if (src[0] == 43 || src[0] == 45) && src.len() == 1 {
        Err(IntParseError::InvalidDigit)
    } else if src[0] == 43 {
        accumulate_digits(src.drop_first(), radix)
    } else {
        accumulate_digits(src, radix)
    }
}

/// Once a prefix of the digits is refused, every longer prefix is refused
/// with the same error.
proof fn lemma_error_persists(ds: Seq<u8>, radix: u32, k: int, j: int)
    requires
        0 <= k <= j <= ds.len(),
        accumulate_digits(ds.subrange(0, k), radix) is Err,
    ensures
        accumulate_digits(ds.subrange(0, j), radix) == accumulate_digits(ds.subrange(0, k), radix),
    decreases j - k,
{
    if j > k {
        lemma_error_persists(ds, radix, k, j - 1);
        assert(ds.subrange(0, j).drop_last() =~= ds.subrange(0, j - 1));
    }
}

/// The value of a digit byte, as `char::to_digit`.
fn to_digit(c: u8, radix: u32) -> (res: Option<u32>)
    requires
        2 <= radix <= 36,
    ensures
        res == digit_value(c, radix),
{
    let d: u32 = if 48u8 <= c && c <= 57u8 {
        (c - 48u8) as u32
    } else if 97u8 <= c && c <= 122u8 {
        (c - 97u8) as u32 + 10
    } else if 65u8 <= c && c <= 90u8 {
        (c - 65u8) as u32 + 10
    } else {
        36
    };
    if d < radix {
        Some(d)
    } else {
        None
    }
}

/// The number that the digits `ds` spell in `radix`.
fn accumulate(ds: &[u8], radix: u32) -> (res: Result<u32, IntParseError>)
    requires
        2 <= radix <= 36,
    ensures
        res == accumulate_digits(ds@, radix),
{
    let mut result: u32 = 0;
    let mut i: usize = 0;
    while i < ds.len()
        invariant
            2 <= radix <= 36,
            0 <= i <= ds@.len(),
            accumulate_digits(ds@.subrange(0, i as int), radix) == Ok::<u32, IntParseError>(result),
        decreases ds@.len() - i,
    {
        let ghost prefix = ds@.subrange(0, i + 1);
        assert(prefix.drop_last() =~= ds@.subrange(0, i as int));
        assert(prefix.last() == ds@[i as int]);
        let x = match to_digit(ds[i], radix) {
            Some(x) => x,
            None => {
                proof {
                    lemma_error_persists(ds@, radix, i + 1, ds@.len() as int);
                    assert(ds@.subrange(0, ds@.len() as int) =~= ds@);
                }
                return Err(IntParseError::InvalidDigit);
            },
        };
        let mul = result.checked_mul(radix);
        let r = match mul {
            Some(r) => r,
            None => {
                assert(result * radix + x > u32::MAX);
                proof {
                    lemma_error_persists(ds@, radix, i + 1, ds@.len() as int);
                    assert(ds@.subrange(0, ds@.len() as int) =~= ds@);
                }
                return Err(IntParseError::PosOverflow);
            },
        };
        result = match r.checked_add(x) {
            Some(v) => v,
            None => {
                proof {
                    lemma_error_persists(ds@, radix, i + 1, ds@.len() as int);
                    assert(ds@.subrange(0, ds@.len() as int) =~= ds@);
                }
                return Err(IntParseError::PosOverflow);
            },
        };
        i = i + 1;
    }
    assert(ds@.subrange(0, i as int) =~= ds@);
    Ok(result)
}

/// `u32::from_str_radix`: the number that `src` spells in `radix`.
pub fn from_str_radix(src: &[u8], radix: u32) -> (res: Result<u32, IntParseError>)
    requires
        2 <= radix <= 36,
    ensures
        res == from_str_radix_spec(src@, radix),
{
    if src.len() == 0 {
        return Err(IntParseError::Empty);
    }
    if (src[0] == 43u8 || src[0] == 45u8) && src.len() == 1 {
        return Err(IntParseError::InvalidDigit);
    }
    if src[0] == 43u8 {
        let digits = slice_subrange(src, 1, src.len());
        assert(digits@ =~= src@.drop_first());
        accumulate(digits, radix)
    } else {
        accumulate(src, radix)
    }
}

/// The number that `s` spells: in hexadecimal after a `0x` prefix, in
/// binary after a `0b` prefix, in decimal otherwise.
pub open spec fn base_prefix_value(b: Seq<u8>) -> Result<u32, IntParseError> {
    if b.len() >= 2 && b[0] == 48 && b[1] == 120 {
        from_str_radix_spec(b.subrange(2, b.len() as int), 16)
    } else if b.len() >= 2 && b[0] == 48 && b[1] == 98 {
        from_str_radix_spec(b.subrange(2, b.len() as int), 2)
    } else {
        from_str_radix_spec(b, 10)
    }
}

/// Parses an unsigned integer with an optional `0x` or `0b` base prefix.
pub fn parse_u32_base_prefix(int_str: &str) -> (res: Result<u32, IntParseError>)
    ensures
        res == base_prefix_value(encode_utf8(int_str@)),
{
    let b = int_str.as_bytes();
    if b.len() >= 2 && b[0] == 48u8 && b[1] == 120u8 {
        from_str_radix(slice_subrange(b, 2, b.len()), 16)
    } else if b.len() >= 2 && b[0] == 48u8 && b[1] == 98u8 {
        from_str_radix(slice_subrange(b, 2, b.len()), 2)
    } else {
        from_str_radix(b, 10)
    }
}

/// `str::parse::<u32>`: the decimal number that `s` spells.
pub fn parse_u32_decimal(s: &str) -> (res: Result<u32, IntParseError>)
    ensures
        res == from_str_radix_spec(encode_utf8(s@), 10),
{
    from_str_radix(s.as_bytes(), 10)
}

// ---------------------------------------------------------------------------
// Laws: reading back the digits of a number
// ---------------------------------------------------------------------------

/// The byte of the digit `d`: `0` to `9`, then the lower-case letters, as
/// Rust's integer formatting writes digits.
pub open spec fn digit_char(d: nat) -> u8 {
    if d < 10 {
        (48 + d) as u8
    } else {
        (87 + d) as u8
    }
}

/// The digits of `n` in `radix`, most significant first and without leading
/// zeros (a single `0` for zero): what `format!("{}")`, `format!("{:x}")` and
/// `format!("{:b}")` write for radix 10, 16 and 2.
pub open spec fn digits_in(n: nat, radix: nat) -> Seq<u8>
    decreases n,
{
    if radix < 2 || n < radix {
        seq![digit_char(n)]
    } else {
        proof {
            vstd::arithmetic::div_mod::lemma_div_decreases(n as int, radix as int);
        }
        digits_in(n / radix, radix).push(digit_char(n % radix))
    }
}

/// A digit's byte is read back as that digit.
proof fn lemma_digit_round_trip(d: nat, radix: u32)
    requires
        d < radix <= 36,
    ensures
        digit_value(digit_char(d), radix) == Some(d as u32),
        48 <= digit_char(d),
        d < 10 ==> digit_char(d) <= 57,
{
}

/// The digits of a 32-bit number are read back as that number; they are
/// digit bytes, and decimal ones at that where the radix is at most ten.
proof fn lemma_digits_round_trip(n: nat, radix: u32)
    requires
        2 <= radix <= 36,
        n <= u32::MAX,
    ensures
        accumulate_digits(digits_in(n, radix as nat), radix) == Ok::<u32, IntParseError>(n as u32),
        digits_in(n, radix as nat).len() >= 1,
        forall|i: int|
            0 <= i < digits_in(n, radix as nat).len() ==> 48 <= #[trigger] digits_in(n, radix as nat)[i]
                && (radix <= 10 ==> digits_in(n, radix as nat)[i] <= 57),
    decreases n,
{
    let r = radix as nat;
    let ds = digits_in(n, r);
    if n < r {
        lemma_digit_round_trip(n, radix);
        assert(ds.drop_last() =~= Seq::<u8>::empty());
        assert(accumulate_digits(ds.drop_last(), radix) == Ok::<u32, IntParseError>(0));
        assert(0u32 * radix == 0);
    } else {
        let q = n / r;
        let m = n % r;
        vstd::arithmetic::div_mod::lemma_div_decreases(n as int, r as int);
        vstd::arithmetic::div_mod::lemma_fundamental_div_mod(n as int, r as int);
        vstd::arithmetic::div_mod::lemma_mod_pos_bound(n as int, r as int);
        lemma_digits_round_trip(q, radix);
        lemma_digit_round_trip(m, radix);
        assert(ds.drop_last() =~= digits_in(q, r));
        assert(q * radix + m == n) by (nonlinear_arith)
            requires
                n == r * q + m,
                r == radix,
        ;
        assert forall|i: int| 0 <= i < ds.len() implies 48 <= #[trigger] ds[i] && (radix <= 10 ==> ds[i] <= 57) by {
            if i < ds.len() - 1 {
                assert(ds[i] == digits_in(q, r)[i]);
            }
        }
    }
}

/// A 32-bit number written in decimal, in hexadecimal after `0x` or in
/// binary after `0b` (as `format!("{}")`, `format!("{:#x}")` and
/// `format!("{:#b}")` write it) is read back by the base-prefix reading as
/// that number.
pub proof fn lemma_base_prefix_round_trip(n: u32)
    ensures
        base_prefix_value(digits_in(n as nat, 10)) == Ok::<u32, IntParseError>(n),
        base_prefix_value(seq![48u8, 120u8] + digits_in(n as nat, 16)) == Ok::<u32, IntParseError>(n),
        base_prefix_value(seq![48u8, 98u8] + digits_in(n as nat, 2)) == Ok::<u32, IntParseError>(n),
{
    let dec = digits_in(n as nat, 10);
    let hex = digits_in(n as nat, 16);
    let bin = digits_in(n as nat, 2);
    lemma_digits_round_trip(n as nat, 10);
    lemma_digits_round_trip(n as nat, 16);
    lemma_digits_round_trip(n as nat, 2);
    assert(48 <= dec[0]);
    assert(dec.len() >= 2 ==> dec[1] <= 57);
    assert(48 <= hex[0]);
    assert(48 <= bin[0]);
    assert((seq![48u8, 120u8] + hex).subrange(2, hex.len() + 2int) =~= hex);
    assert((seq![48u8, 98u8] + bin).subrange(2, bin.len() + 2int) =~= bin);
}

} // verus!
