use vstd::prelude::*;

use crate::block::Block;
use crate::coordinate::Coordinate;
use crate::error::{Error, IntegerError};
use crate::wire::{
    block_item, body_end, coordinate_item, decode_field, decode_i32, decode_u32, digit_run,
    digits_value, fraction_nonzero, has_fraction, i32_field, int_end, is_digit, is_negative,
    is_wire_byte, sign_len, terminator_of, u32_field, COMMA, MAX_FIELD_LEN, MINUS, NEWLINE, NINE,
    PLUS, POINT, SEMICOLON, ZERO,
};

verus! {

/// Upper bound kept on the magnitude while digits accumulate; any larger
/// value is out of range for every target width anyway.
pub const MAGNITUDE_CAP: u64 = 0x100_0000_0000;

/// A magnitude held at no more than `MAGNITUDE_CAP`.
spec fn capped(m: int) -> int {
    if m >= MAGNITUDE_CAP {
        MAGNITUDE_CAP as int
    } else {
        m
    }
}

/// `w` stands for the field value `v`: exactly while `|v|` is within the cap,
/// and beyond the cap on the same side otherwise.
pub open spec fn stands_for(w: int, v: int) -> bool {
    &&& -MAGNITUDE_CAP <= v <= MAGNITUDE_CAP ==> w == v
    &&& v > MAGNITUDE_CAP ==> w >= MAGNITUDE_CAP
    &&& v < -MAGNITUDE_CAP ==> w <= -MAGNITUDE_CAP
}

/// Appending digit `d` commutes with the cap.
proof fn lemma_capped_step(m: int, d: int)
    requires
        0 <= m,
        0 <= d <= 9,
    ensures
        capped(m * 10 + d) == (if capped(m) >= MAGNITUDE_CAP {
            MAGNITUDE_CAP as int
        } else if capped(m) * 10 + d > MAGNITUDE_CAP {
            MAGNITUDE_CAP as int
        } else {
            capped(m) * 10 + d
        }),
{
}

/// The value of one more digit.
proof fn lemma_digits_value_push(s: Seq<u8>, a: int, b: int)
    requires
        0 <= a <= b < s.len(),
    ensures
        digits_value(s.subrange(a, b + 1)) == digits_value(s.subrange(a, b)) * 10 + (s[b]
            - ZERO) as nat,
{
    let t = s.subrange(a, b + 1);
    assert(t.drop_last() =~= s.subrange(a, b));
}

/// The byte that ends a decoded field.
#[derive(Clone, Copy, Debug, PartialEq, Eq, Structural)]
pub enum Terminator {
    /// `,`: between the components of one item, or between heights.
    Comma,
    /// `;`: between the items of a block list.
    Semicolon,
    /// `\n`: after the last field of a response.
    Newline,
}

impl Terminator {
    /// The terminator that `byte` stands for, if any.
    pub fn from_byte(byte: u8) -> (r: Option<Terminator>)
        ensures
            r == terminator_of(byte),
    {
        if byte == COMMA {
            Some(Terminator::Comma)
        } else if byte == SEMICOLON {
            Some(Terminator::Semicolon)
        } else if byte == NEWLINE {
            Some(Terminator::Newline)
        } else {
            None
        }
    }
}

/// A decoded value together with the terminator that closed it.
#[derive(Debug)]
pub struct WithTerminator<T> {
    pub value: T,
    pub terminator: Terminator,
}

impl<T> WithTerminator<T> {
    /// The value, provided the field was closed by `expected`.
    pub fn expect_terminator(self, expected: Terminator) -> (r: Result<T, Error>)
        ensures
            self.terminator == expected ==> r == Ok::<T, Error>(self.value),
            self.terminator != expected ==> r == Err::<T, Error>(
                Error::UnexpectedTerminator { expected, actual: self.terminator },
            ),
    {
        if self.terminator != expected {
            return Err(Error::UnexpectedTerminator { expected, actual: self.terminator });
        }
        Ok(self.value)
    }
}

/// A byte cursor over the bytes received so far and not yet consumed.
///
/// The connection appends what it reads from the transport with `fill`; the
/// decoder consumes bytes with `peek` and `next`. Running out of bytes in the
/// middle of a field is an `UnexpectedEof`.
#[derive(Debug)]
pub struct BufReader {
    buffer: Vec<u8>,
    index: usize,
}

impl View for BufReader {
    type V = Seq<u8>;

    /// The unconsumed bytes.
    closed spec fn view(&self) -> Seq<u8> {
        self.buffer@.skip(self.index as int)
    }
}

impl BufReader {
    #[verifier::type_invariant]
    spec fn inv(self) -> bool {
        self.index <= self.buffer.len()
    }

    /// An empty cursor.
    pub fn new() -> (r: Self)
        ensures
            r@ == Seq::<u8>::empty(),
    {
        let r = BufReader { buffer: Vec::new(), index: 0 };
        assert(r@ =~= Seq::<u8>::empty());
        r
    }

    /// Append freshly received bytes behind the unconsumed ones.
    pub fn fill(&mut self, bytes: &[u8])
        ensures
            final(self)@ == old(self)@ + bytes@,
    {
        proof {
            use_type_invariant(&*self);
        }
        let ghost pending = self@;
        let mut buffer: Vec<u8> = Vec::new();
        let mut i: usize = self.index;
        while i < self.buffer.len()
            invariant
                self@ == pending,
                self.index <= i <= self.buffer.len(),
                buffer@ == self.buffer@.subrange(self.index as int, i as int),
            decreases self.buffer.len() - i,
        {
            buffer.push(self.buffer[i]);
            i += 1;
        }
        assert(buffer@ =~= pending);
        let mut j: usize = 0;
        while j < bytes.len()
            invariant
                j <= bytes@.len(),
                buffer@ == pending + bytes@.subrange(0, j as int),
            decreases bytes@.len() - j,
        {
            buffer.push(bytes[j]);
            j += 1;
            assert(buffer@ =~= pending + bytes@.subrange(0, j as int));
        }
        assert(bytes@.subrange(0, bytes@.len() as int) =~= bytes@);
        self.index = 0;
        self.buffer = buffer;
        assert(self@ =~= pending + bytes@);
    }

    /// The next unconsumed byte, without consuming it.
    pub fn peek(&self) -> (r: Result<u8, Error>)
        ensures
            self@.len() == 0 ==> r == Err::<u8, Error>(Error::UnexpectedEof),
            self@.len() > 0 ==> r == Ok::<u8, Error>(self@[0]),
    {
        proof {
            use_type_invariant(self);
        }
        if self.index < self.buffer.len() {
            Ok(self.buffer[self.index])
        } else {
            Err(Error::UnexpectedEof)
        }
    }

    /// Consume and return the next byte.
    pub fn next(&mut self) -> (r: Result<u8, Error>)
        ensures
            old(self)@.len() == 0 ==> r == Err::<u8, Error>(Error::UnexpectedEof) && final(self)@
                == old(self)@,
            old(self)@.len() > 0 ==> r == Ok::<u8, Error>(old(self)@[0]) && final(self)@ == old(
                self,
            )@.skip(1),
    {
        proof {
            use_type_invariant(&*self);
        }
        if self.index < self.buffer.len() {
            let byte = self.buffer[self.index];
            self.index = self.index + 1;
            assert(self@ =~= old(self)@.skip(1));
            Ok(byte)
        } else {
            Err(Error::UnexpectedEof)
        }
    }

    /// Number of unconsumed bytes.
    pub fn len(&self) -> (r: usize)
        ensures
            r == self@.len(),
    {
        proof {
            use_type_invariant(self);
        }
        self.buffer.len() - self.index
    }
}

/// Decodes numeric fields from a byte cursor, one field at a time.
#[derive(Debug)]
pub struct IntegerStream {
    inner: BufReader,
}

impl View for IntegerStream {
    type V = Seq<u8>;

    /// The unconsumed bytes.
    closed spec fn view(&self) -> Seq<u8> {
        self.inner@
    }
}

impl IntegerStream {
    /// Decode fields from `inner`.
    pub fn new(inner: BufReader) -> (r: Self)
        ensures
            r@ == inner@,
    {
        IntegerStream { inner }
    }

    /// Give the byte cursor back.
    pub fn into_inner(self) -> (r: BufReader)
        ensures
            r@ == self@,
    {
        self.inner
    }

    /// The next byte, which must be on the wire alphabet.
    fn peek_wire(&self) -> (r: Result<u8, Error>)
        ensures
            self@.len() == 0 ==> r == Err::<u8, Error>(Error::UnexpectedEof),
            self@.len() > 0 && !is_wire_byte(self@[0]) ==> r == Err::<u8, Error>(
                Error::NonAsciiByte { byte: self@[0] },
            ),
            self@.len() > 0 && is_wire_byte(self@[0]) ==> r == Ok::<u8, Error>(self@[0]),
    {
        let byte = match self.inner.peek() {
            Ok(b) => b,
            Err(e) => return Err(e),
        };
        if byte == NEWLINE || (0x20 <= byte && byte <= 0x7e) {
            Ok(byte)
        } else {
            Err(Error::NonAsciiByte { byte })
        }
    }

    /// Consume one byte of the field body, of which `len` bytes are already consumed.
    fn take_body_byte(&mut self, len: usize) -> (r: Result<usize, Error>)
        requires
            old(self)@.len() > 0,
        ensures
            len >= MAX_FIELD_LEN ==> r == Err::<usize, Error>(
                Error::FieldTooLong { max: MAX_FIELD_LEN },
            ),
            len < MAX_FIELD_LEN ==> r == Ok::<usize, Error>((len + 1) as usize) && final(self)@
                == old(self)@.skip(1),
    {
        if len >= MAX_FIELD_LEN {
            return Err(Error::FieldTooLong { max: MAX_FIELD_LEN });
        }
        let _ = self.inner.next();
        Ok(len + 1)
    }

    /// Decode one numeric field: an optional sign, a run of digits, an
    /// optional fractional part, then the terminator, which is consumed.
    ///
    /// The value is rounded toward negative infinity; its magnitude is held
    /// at `MAGNITUDE_CAP`, which is out of range for `i32` and `u32`.
    pub fn read(&mut self) -> (r: Result<WithTerminator<i64>, Error>)
        ensures
            match decode_field(old(self)@) {
                Err(e) => r == Err::<WithTerminator<i64>, Error>(e),
                Ok((v, t, c)) => {
                    &&& r is Ok
                    &&& r->Ok_0.terminator == t
                    &&& stands_for(r->Ok_0.value as int, v)
                    &&& final(self)@ == old(self)@.skip(c as int)
                },
            },
    {
        let ghost s = self@;
        let first = match self.peek_wire() {
            Ok(b) => b,
            Err(e) => {
                return Err(e);
            },
        };
        let negative = first == MINUS;
        let mut len: usize = 0;
        if first == MINUS || first == PLUS {
            len = match self.take_body_byte(len) {
                Ok(l) => l,
                Err(e) => {
                    return Err(e);
                },
            };
        }
        assert(len == sign_len(s));
        assert(s.subrange(sign_len(s), len as int) =~= Seq::<u8>::empty());
        let mut magnitude: u64 = 0;
        let mut digits: usize = 0;
        let mut byte: u8;
        loop
            invariant
                s == old(self)@,
                self@ == s.skip(len as int),
                len == sign_len(s) + digits,
                len <= MAX_FIELD_LEN,
                len <= s.len(),
                digit_run(s, sign_len(s)) == digits + digit_run(s, len as int),
                magnitude == capped(digits_value(s.subrange(sign_len(s), len as int)) as int),
                negative == is_negative(s),
            ensures
                len < s.len(),
                byte == s[len as int],
                is_wire_byte(byte),
                !is_digit(byte),
                digit_run(s, len as int) == 0,
            decreases s.len() - len,
        {
            byte = match self.peek_wire() {
                Ok(b) => b,
                Err(e) => {
                    assert(digit_run(s, len as int) == 0);
                    return Err(e);
                },
            };
            assert(byte == s[len as int]);
            if byte < ZERO || byte > NINE {
                assert(digit_run(s, len as int) == 0);
                break ;
            }
            assert(digit_run(s, len as int) == 1 + digit_run(s, len + 1));
            proof {
                lemma_capped_step(
                    digits_value(s.subrange(sign_len(s), len as int)) as int,
                    (byte - ZERO) as int,
                );
                lemma_digits_value_push(s, sign_len(s), len as int);
            }
            len = match self.take_body_byte(len) {
                Ok(l) => l,
                Err(e) => {
                    return Err(e);
                },
            };
            digits = digits + 1;
            let d = (byte - ZERO) as u64;
            magnitude =
            if magnitude >= MAGNITUDE_CAP {
                MAGNITUDE_CAP
            } else if magnitude * 10 + d > MAGNITUDE_CAP {
                MAGNITUDE_CAP
            } else {
                magnitude * 10 + d
            };
        }
        assert(int_end(s) == len);
        if digits == 0 {
            return Err(Error::ParseInt(IntegerError::EmptyDigits));
        }
        let mut nonzero = false;
        if byte == POINT {
            len = match self.take_body_byte(len) {
                Ok(l) => l,
                Err(e) => {
                    return Err(e);
                },
            };
            let ghost start = len as int;
            assert(has_fraction(s));
            loop
                invariant
                    s == old(self)@,
                    self@ == s.skip(len as int),
                    start == int_end(s) + 1,
                    start <= len <= MAX_FIELD_LEN,
                    len <= s.len(),
                    has_fraction(s),
                    digit_run(s, start) == (len - start) + digit_run(s, len as int),
                    nonzero == exists|k: int| start <= k < len && s[k] != ZERO,
                ensures
                    len < s.len(),
                    byte == s[len as int],
                    is_wire_byte(byte),
                    digit_run(s, len as int) == 0,
                decreases s.len() - len,
            {
                byte = match self.peek_wire() {
                    Ok(b) => b,
                    Err(e) => {
                        assert(digit_run(s, len as int) == 0);
                        return Err(e);
                    },
                };
                assert(byte == s[len as int]);
                if byte < ZERO || byte > NINE {
                    assert(digit_run(s, len as int) == 0);
                    break ;
                }
                assert(digit_run(s, len as int) == 1 + digit_run(s, len + 1));
                let ghost before = nonzero;
                if byte != ZERO {
                    nonzero = true;
                }
                len = match self.take_body_byte(len) {
                    Ok(l) => l,
                    Err(e) => {
                        return Err(e);
                    },
                };
                assert(nonzero == exists|k: int| start <= k < len && s[k] != ZERO) by {
                    if before {
                        let k = choose|k: int| start <= k < len - 1 && s[k] != ZERO;
                        assert(start <= k < len && s[k] != ZERO);
                    }
                    if byte != ZERO {
                        assert(start <= len - 1 < len && s[len - 1] != ZERO);
                    }
                }
            }
            assert(body_end(s) == len);
            assert(nonzero == fraction_nonzero(s));
        } else {
            assert(!has_fraction(s));
            assert(body_end(s) == len);
            assert(!fraction_nonzero(s));
        }
        let end = match self.peek_wire() {
            Ok(b) => b,
            Err(e) => {
                return Err(e);
            },
        };
        let _ = self.inner.next();
        let terminator = match Terminator::from_byte(end) {
            Some(t) => t,
            None => {
                return Err(Error::ParseInt(IntegerError::InvalidTerminator));
            },
        };
        let mut value: i64 = magnitude as i64;
        if negative {
            value = -value;
            if nonzero {
                value = value - 1;
            }
        }
        Ok(WithTerminator { value, terminator })
    }

    /// Decode one field as an `i32`.
    pub fn read_i32(&mut self) -> (r: Result<WithTerminator<i32>, Error>)
        ensures
            match decode_i32(old(self)@) {
                Err(e) => r == Err::<WithTerminator<i32>, Error>(e),
                Ok((v, t, c)) => {
                    &&& r == Ok::<WithTerminator<i32>, Error>(WithTerminator { value: v, terminator: t })
                    &&& final(self)@ == old(self)@.skip(c as int)
                },
            },
    {
        let w = match self.read() {
            Ok(w) => w,
            Err(e) => {
                return Err(e);
            },
        };
        if i32::MIN as i64 <= w.value && w.value <= i32::MAX as i64 {
            Ok(WithTerminator { value: w.value as i32, terminator: w.terminator })
        } else {
            Err(Error::ParseInt(IntegerError::Overflow))
        }
    }

    /// Decode one field as a `u32`.
    pub fn read_u32(&mut self) -> (r: Result<WithTerminator<u32>, Error>)
        ensures
            match decode_u32(old(self)@) {
                Err(e) => r == Err::<WithTerminator<u32>, Error>(e),
                Ok((v, t, c)) => {
                    &&& r == Ok::<WithTerminator<u32>, Error>(WithTerminator { value: v, terminator: t })
                    &&& final(self)@ == old(self)@.skip(c as int)
                },
            },
    {
        let w = match self.read() {
            Ok(w) => w,
            Err(e) => {
                return Err(e);
            },
        };
        if 0 <= w.value && w.value <= u32::MAX as i64 {
            Ok(WithTerminator { value: w.value as u32, terminator: w.terminator })
        } else {
            Err(Error::ParseInt(IntegerError::Overflow))
        }
    }
}

/// Reads the fields of one response in the shapes the protocol defines.
#[derive(Debug)]
pub struct ResponseStream {
    reader: IntegerStream,
}

impl View for ResponseStream {
    type V = Seq<u8>;

    /// The unconsumed bytes.
    closed spec fn view(&self) -> Seq<u8> {
        self.reader@
    }
}

impl ResponseStream {
    /// Read a response from the bytes held by `reader`.
    pub fn new(reader: BufReader) -> (r: Self)
        ensures
            r@ == reader@,
    {
        ResponseStream { reader: IntegerStream::new(reader) }
    }

    /// Give the byte cursor back.
    pub fn into_reader(self) -> (r: BufReader)
        ensures
            r@ == self@,
    {
        self.reader.into_inner()
    }

    fn field_i32(&mut self, expected: Terminator) -> (r: Result<i32, Error>)
        ensures
            match i32_field(old(self)@, expected) {
                Err(e) => r == Err::<i32, Error>(e),
                Ok((v, c)) => r == Ok::<i32, Error>(v) && final(self)@ == old(self)@.skip(c as int),
            },
    {
        match self.reader.read_i32() {
            Ok(w) => w.expect_terminator(expected),
            Err(e) => Err(e),
        }
    }

    fn field_u32(&mut self, expected: Terminator) -> (r: Result<u32, Error>)
        ensures
            match u32_field(old(self)@, expected) {
                Err(e) => r == Err::<u32, Error>(e),
                Ok((v, c)) => r == Ok::<u32, Error>(v) && final(self)@ == old(self)@.skip(c as int),
            },
    {
        match self.reader.read_u32() {
            Ok(w) => w.expect_terminator(expected),
            Err(e) => Err(e),
        }
    }

    /// One `i32` followed by a comma.
    pub fn next_i32(&mut self) -> (r: Result<i32, Error>)
        ensures
            match i32_field(old(self)@, Terminator::Comma) {
                Err(e) => r == Err::<i32, Error>(e),
                Ok((v, c)) => r == Ok::<i32, Error>(v) && final(self)@ == old(self)@.skip(c as int),
            },
    {
        self.field_i32(Terminator::Comma)
    }

    /// One `i32` that ends the response.
    pub fn final_i32(&mut self) -> (r: Result<i32, Error>)
        ensures
            match i32_field(old(self)@, Terminator::Newline) {
                Err(e) => r == Err::<i32, Error>(e),
                Ok((v, c)) => r == Ok::<i32, Error>(v) && final(self)@ == old(self)@.skip(c as int),
            },
    {
        self.field_i32(Terminator::Newline)
    }

    fn block(&mut self, last: bool) -> (r: Result<Block, Error>)
        ensures
            match block_item(old(self)@, last) {
                Err(e) => r == Err::<Block, Error>(e),
                Ok((b, c)) => r == Ok::<Block, Error>(b) && final(self)@ == old(self)@.skip(c as int),
            },
    {
        let ghost s = self@;
        let id = match self.field_u32(Terminator::Comma) {
            Ok(v) => v,
            Err(e) => {
                return Err(e);
            },
        };
        let modifier = match self.field_u32(if last { Terminator::Newline } else { Terminator::Semicolon }) {
            Ok(v) => v,
            Err(e) => {
                return Err(e);
            },
        };
        assert(self@ =~= s.skip(block_item(s, last)->Ok_0.1 as int));
        Ok(Block { id, modifier })
    }

    /// One block `id,modifier` inside a list: followed by a semicolon.
    pub fn next_block(&mut self) -> (r: Result<Block, Error>)
        ensures
            match block_item(old(self)@, false) {
                Err(e) => r == Err::<Block, Error>(e),
                Ok((b, c)) => r == Ok::<Block, Error>(b) && final(self)@ == old(self)@.skip(c as int),
            },
    {
        self.block(false)
    }

    /// One block `id,modifier` that ends the response.
    pub fn final_block(&mut self) -> (r: Result<Block, Error>)
        ensures
            match block_item(old(self)@, true) {
                Err(e) => r == Err::<Block, Error>(e),
                Ok((b, c)) => r == Ok::<Block, Error>(b) && final(self)@ == old(self)@.skip(c as int),
            },
    {
        self.block(true)
    }

    /// A coordinate `x,y,z` that ends the response.
    pub fn final_coordinate(&mut self) -> (r: Result<Coordinate, Error>)
        ensures
            match coordinate_item(old(self)@) {
                Err(e) => r == Err::<Coordinate, Error>(e),
                Ok((p, c)) => r == Ok::<Coordinate, Error>(p) && final(self)@ == old(self)@.skip(
                    c as int,
                ),
            },
    {
        let ghost s = self@;
        let x = match self.field_i32(Terminator::Comma) {
            Ok(v) => v,
            Err(e) => {
                return Err(e);
            },
        };
        let ghost c1 = i32_field(s, Terminator::Comma)->Ok_0.1;
        let y = match self.field_i32(Terminator::Comma) {
            Ok(v) => v,
            Err(e) => {
                return Err(e);
            },
        };
        let ghost c2 = i32_field(s.skip(c1 as int), Terminator::Comma)->Ok_0.1;
        assert(s.skip(c1 as int).skip(c2 as int) =~= s.skip((c1 + c2) as int));
        let z = match self.field_i32(Terminator::Newline) {
            Ok(v) => v,
            Err(e) => {
                return Err(e);
            },
        };
        assert(self@ =~= s.skip(coordinate_item(s)->Ok_0.1 as int));
        Ok(Coordinate { x, y, z })
    }
}

} // verus!
