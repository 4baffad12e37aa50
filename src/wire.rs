//! Mathematical model of the inbound wire format: what one numeric field
//! decodes to, and how fields compose into blocks, heights and coordinates.
use vstd::prelude::*;

use crate::block::Block;
use crate::coordinate::Coordinate;
use crate::error::{Error, IntegerError};
use crate::response::Terminator;

verus! {

/// Longest accepted field body (sign, digits, point and fraction), in bytes.
pub const MAX_FIELD_LEN: usize = 48;

pub const COMMA: u8 = 0x2c;

pub const SEMICOLON: u8 = 0x3b;

pub const NEWLINE: u8 = 0x0a;

pub const MINUS: u8 = 0x2d;

pub const PLUS: u8 = 0x2b;

pub const POINT: u8 = 0x2e;

pub const ZERO: u8 = 0x30;

pub const NINE: u8 = 0x39;

pub open spec fn is_digit(b: u8) -> bool {
    ZERO <= b <= NINE
}

/// Bytes that may appear on the wire: printable ASCII and newline.
pub open spec fn is_wire_byte(b: u8) -> bool {
    b == NEWLINE || (0x20 <= b <= 0x7e)
}

pub open spec fn terminator_of(b: u8) -> Option<Terminator> {
    if b == COMMA {
        Some(Terminator::Comma)
    } else if b == SEMICOLON {
        Some(Terminator::Semicolon)
    } else if b == NEWLINE {
        Some(Terminator::Newline)
    } else {
        None
    }
}

/// Number of consecutive ASCII digits in `s` starting at position `i`.
pub open spec fn digit_run(s: Seq<u8>, i: int) -> nat
    decreases s.len() - i,
{
    if 0 <= i < s.len() && is_digit(s[i]) {
        1 + digit_run(s, i + 1)
    } else {
        0
    }
}

/// The natural number written by a sequence of decimal digits.
pub open spec fn digits_value(d: Seq<u8>) -> nat
    decreases d.len(),
{
    if d.len() == 0 {
        0
    } else {
        digits_value(d.drop_last()) * 10 + (d.last() - ZERO) as nat
    }
}

/// Length of the optional leading sign.
pub open spec fn sign_len(s: Seq<u8>) -> int {
    if s.len() > 0 && (s[0] == MINUS || s[0] == PLUS) {
        1
    } else {
        0
    }
}

pub open spec fn is_negative(s: Seq<u8>) -> bool {
    s.len() > 0 && s[0] == MINUS
}

/// End of the integer digit run.
pub open spec fn int_end(s: Seq<u8>) -> int {
    sign_len(s) + digit_run(s, sign_len(s))
}

/// A decimal point follows a non-empty integer digit run.
pub open spec fn has_fraction(s: Seq<u8>) -> bool {
    digit_run(s, sign_len(s)) > 0 && int_end(s) < s.len() && s[int_end(s)] == POINT
}

/// Position of the first byte that is not part of the field body: the
/// terminator when the field is well formed.
pub open spec fn body_end(s: Seq<u8>) -> int {
    if has_fraction(s) {
        int_end(s) + 1 + digit_run(s, int_end(s) + 1)
    } else {
        int_end(s)
    }
}

/// Some digit of the fractional part is not zero.
pub open spec fn fraction_nonzero(s: Seq<u8>) -> bool {
    has_fraction(s) && exists|k: int| int_end(s) + 1 <= k < body_end(s) && s[k] != ZERO
}

/// The value of a well-formed field, rounded toward negative infinity.
pub open spec fn field_value(s: Seq<u8>) -> int {
    let magnitude = digits_value(s.subrange(sign_len(s), int_end(s))) as int;
    if is_negative(s) {
        if fraction_nonzero(s) {
            -magnitude - 1
        } else {
            -magnitude
        }
    } else {
        magnitude
    }
}

/// Outcome of decoding one numeric field at the front of `s`: its value, the
/// terminator that closed it and the number of bytes consumed, or the error.
pub open spec fn decode_field(s: Seq<u8>) -> Result<(int, Terminator, nat), Error> {
    let q = body_end(s);
    if q > MAX_FIELD_LEN {
        Err(Error::FieldTooLong { max: MAX_FIELD_LEN })
    } else if q >= s.len() {
        Err(Error::UnexpectedEof)
    } else if !is_wire_byte(s[q]) {
        Err(Error::NonAsciiByte { byte: s[q] })
    } else if digit_run(s, sign_len(s)) == 0 {
        Err(Error::ParseInt(IntegerError::EmptyDigits))
    } else {
        match terminator_of(s[q]) {
            None => Err(Error::ParseInt(IntegerError::InvalidTerminator)),
            Some(t) => Ok((field_value(s), t, (q + 1) as nat)),
        }
    }
}

/// A decoded field narrowed to `i32`.
pub open spec fn decode_i32(s: Seq<u8>) -> Result<(i32, Terminator, nat), Error> {
    match decode_field(s) {
        Err(e) => Err(e),
        Ok((v, t, c)) => if i32::MIN <= v <= i32::MAX {
            Ok((v as i32, t, c))
        } else {
            Err(Error::ParseInt(IntegerError::Overflow))
        },
    }
}

/// A decoded field narrowed to `u32`.
pub open spec fn decode_u32(s: Seq<u8>) -> Result<(u32, Terminator, nat), Error> {
    match decode_field(s) {
        Err(e) => Err(e),
        Ok((v, t, c)) => if 0 <= v <= u32::MAX {
            Ok((v as u32, t, c))
        } else {
            Err(Error::ParseInt(IntegerError::Overflow))
        },
    }
}

/// A decoded value whose terminator must be `expected`.
pub open spec fn expect_spec<T>(r: Result<(T, Terminator, nat), Error>, expected: Terminator) -> Result<
    (T, nat),
    Error,
> {
    match r {
        Err(e) => Err(e),
        Ok((v, t, c)) => if t == expected {
            Ok((v, c))
        } else {
            Err(Error::UnexpectedTerminator { expected, actual: t })
        },
    }
}

/// One `i32` field closed by `t`.
pub open spec fn i32_field(s: Seq<u8>, t: Terminator) -> Result<(i32, nat), Error> {
    expect_spec(decode_i32(s), t)
}

/// One `u32` field closed by `t`.
pub open spec fn u32_field(s: Seq<u8>, t: Terminator) -> Result<(u32, nat), Error> {
    expect_spec(decode_u32(s), t)
}

/// The terminator that closes an item of a list: the list separator, or a
/// newline after the last item.
pub open spec fn item_end(last: bool, separator: Terminator) -> Terminator {
    if last {
        Terminator::Newline
    } else {
        separator
    }
}

/// A block `id,modifier` closed by a semicolon, or by a newline when `last`.
pub open spec fn block_item(s: Seq<u8>, last: bool) -> Result<(Block, nat), Error> {
    match u32_field(s, Terminator::Comma) {
        Err(e) => Err(e),
        Ok((id, c1)) => match u32_field(s.skip(c1 as int), item_end(last, Terminator::Semicolon)) {
            Err(e) => Err(e),
            Ok((modifier, c2)) => Ok((Block { id, modifier }, c1 + c2)),
        },
    }
}

/// A height closed by a comma, or by a newline when `last`.
pub open spec fn height_item(s: Seq<u8>, last: bool) -> Result<(i32, nat), Error> {
    i32_field(s, item_end(last, Terminator::Comma))
}

/// A coordinate response `x,y,z\n`.
pub open spec fn coordinate_item(s: Seq<u8>) -> Result<(Coordinate, nat), Error> {
    match i32_field(s, Terminator::Comma) {
        Err(e) => Err(e),
        Ok((x, c1)) => match i32_field(s.skip(c1 as int), Terminator::Comma) {
            Err(e) => Err(e),
            Ok((y, c2)) => match i32_field(s.skip((c1 + c2) as int), Terminator::Newline) {
                Err(e) => Err(e),
                Ok((z, c3)) => Ok((Coordinate { x, y, z }, c1 + c2 + c3)),
            },
        },
    }
}

/// The first `k` blocks of an `n`-block list response, with the bytes they use.
pub open spec fn block_list(s: Seq<u8>, n: nat, k: nat) -> Result<(Seq<Block>, nat), Error>
    decreases k,
{
    if k == 0 {
        Ok((Seq::empty(), 0))
    } else {
        match block_list(s, n, (k - 1) as nat) {
            Err(e) => Err(e),
            Ok((items, used)) => match block_item(s.skip(used as int), k == n) {
                Err(e) => Err(e),
                Ok((b, c)) => Ok((items.push(b), used + c)),
            },
        }
    }
}

/// The first `k` heights of an `n`-height list response, with the bytes they use.
pub open spec fn height_list(s: Seq<u8>, n: nat, k: nat) -> Result<(Seq<i32>, nat), Error>
    decreases k,
{
    if k == 0 {
        Ok((Seq::empty(), 0))
    } else {
        match height_list(s, n, (k - 1) as nat) {
            Err(e) => Err(e),
            Ok((items, used)) => match height_item(s.skip(used as int), k == n) {
                Err(e) => Err(e),
                Ok((h, c)) => Ok((items.push(h), used + c)),
            },
        }
    }
}

/// Once the first `k` blocks of a list fail to decode, every longer prefix
/// fails with the same error.
pub proof fn lemma_block_list_err(s: Seq<u8>, n: nat, k: nat, m: nat)
    requires
        k <= m,
        block_list(s, n, k) is Err,
    ensures
        block_list(s, n, m) == block_list(s, n, k),
    decreases m,
{
    if m > k {
        lemma_block_list_err(s, n, k, (m - 1) as nat);
    }
}

/// A prefix of a decoded block list decodes to the same leading items.
pub proof fn lemma_block_list_prefix(s: Seq<u8>, n: nat, k: nat, m: nat)
    requires
        k <= m,
        block_list(s, n, m) is Ok,
    ensures
        block_list(s, n, k) is Ok,
        block_list(s, n, m)->Ok_0.0.len() == m,
        block_list(s, n, k)->Ok_0.0 == block_list(s, n, m)->Ok_0.0.subrange(0, k as int),
    decreases m,
{
    if m > 0 {
        lemma_block_list_prefix(s, n, (m - 1) as nat, (m - 1) as nat);
        if k < m {
            lemma_block_list_prefix(s, n, k, (m - 1) as nat);
        }
        assert(block_list(s, n, m)->Ok_0.0.subrange(0, (m - 1) as int) =~= block_list(
            s,
            n,
            (m - 1) as nat,
        )->Ok_0.0);
    }
    if k == m {
        assert(block_list(s, n, m)->Ok_0.0.subrange(0, k as int) =~= block_list(s, n, m)->Ok_0.0);
    }
}

/// Once the first `k` heights of a list fail to decode, every longer prefix
/// fails with the same error.
pub proof fn lemma_height_list_err(s: Seq<u8>, n: nat, k: nat, m: nat)
    requires
        k <= m,
        height_list(s, n, k) is Err,
    ensures
        height_list(s, n, m) == height_list(s, n, k),
    decreases m,
{
    if m > k {
        lemma_height_list_err(s, n, k, (m - 1) as nat);
    }
}

/// A prefix of a decoded height list decodes to the same leading items.
pub proof fn lemma_height_list_prefix(s: Seq<u8>, n: nat, k: nat, m: nat)
    requires
        k <= m,
        height_list(s, n, m) is Ok,
    ensures
        height_list(s, n, k) is Ok,
        height_list(s, n, m)->Ok_0.0.len() == m,
        height_list(s, n, k)->Ok_0.0 == height_list(s, n, m)->Ok_0.0.subrange(0, k as int),
    decreases m,
{
    if m > 0 {
        lemma_height_list_prefix(s, n, (m - 1) as nat, (m - 1) as nat);
        if k < m {
            lemma_height_list_prefix(s, n, k, (m - 1) as nat);
        }
        assert(height_list(s, n, m)->Ok_0.0.subrange(0, (m - 1) as int) =~= height_list(
            s,
            n,
            (m - 1) as nat,
        )->Ok_0.0);
    }
    if k == m {
        assert(height_list(s, n, m)->Ok_0.0.subrange(0, k as int) =~= height_list(s, n, m)->Ok_0.0);
    }
}

/// A decoded field consumes at least its terminator and no more than the input.
pub proof fn lemma_field_len(s: Seq<u8>)
    ensures
        decode_field(s) is Ok ==> 1 <= decode_field(s)->Ok_0.2 <= s.len(),
        decode_i32(s) is Ok ==> 1 <= decode_i32(s)->Ok_0.2 <= s.len(),
        decode_u32(s) is Ok ==> 1 <= decode_u32(s)->Ok_0.2 <= s.len(),
        forall|t: Terminator| #[trigger]
            i32_field(s, t) is Ok ==> 1 <= i32_field(s, t)->Ok_0.1 <= s.len(),
        forall|t: Terminator| #[trigger]
            u32_field(s, t) is Ok ==> 1 <= u32_field(s, t)->Ok_0.1 <= s.len(),
{
}

/// A decoded block consumes no more than the input.
pub proof fn lemma_block_item_len(s: Seq<u8>, last: bool)
    ensures
        block_item(s, last) is Ok ==> block_item(s, last)->Ok_0.1 <= s.len(),
{
    lemma_field_len(s);
    if u32_field(s, Terminator::Comma) is Ok {
        let c1 = u32_field(s, Terminator::Comma)->Ok_0.1;
        lemma_field_len(s.skip(c1 as int));
    }
}

/// A decoded height consumes no more than the input.
pub proof fn lemma_height_item_len(s: Seq<u8>, last: bool)
    ensures
        height_item(s, last) is Ok ==> height_item(s, last)->Ok_0.1 <= s.len(),
{
    lemma_field_len(s);
}

} // verus!
