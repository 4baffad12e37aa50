use mcrs::{
    Block, BufReader, Coordinate, Error, IntegerError, IntegerStream, ResponseStream, Terminator,
};

fn reader(bytes: &[u8]) -> BufReader {
    let mut r = BufReader::new();
    r.fill(bytes);
    r
}

fn integers(bytes: &[u8]) -> IntegerStream {
    IntegerStream::new(reader(bytes))
}

fn response(bytes: &[u8]) -> ResponseStream {
    ResponseStream::new(reader(bytes))
}

#[test]
fn negative_fraction_rounds_toward_negative_infinity() {
    let w = integers(b"-1.3,").read_i32().unwrap();
    assert_eq!(w.value, -2);
    assert_eq!(w.terminator, Terminator::Comma);
}

#[test]
fn positive_fraction_is_truncated() {
    let w = integers(b"1.9,").read_i32().unwrap();
    assert_eq!(w.value, 1);
    assert_eq!(w.terminator, Terminator::Comma);
}

#[test]
fn negative_zero_fraction_keeps_value() {
    assert_eq!(integers(b"-3.000,").read_i32().unwrap().value, -3);
    assert_eq!(integers(b"-0.5\n").read_i32().unwrap().value, -1);
    assert_eq!(integers(b"-0.0\n").read_i32().unwrap().value, 0);
}

#[test]
fn empty_leading_field_fails() {
    let r = integers(b",5\n").read_i32();
    assert_eq!(r.unwrap_err(), Error::ParseInt(IntegerError::EmptyDigits));
}

#[test]
fn sign_without_digits_fails() {
    assert_eq!(
        integers(b"-,").read_i32().unwrap_err(),
        Error::ParseInt(IntegerError::EmptyDigits)
    );
    assert_eq!(
        integers(b"+.5,").read_i32().unwrap_err(),
        Error::ParseInt(IntegerError::EmptyDigits)
    );
}

#[test]
fn too_many_digits_for_u32_overflow() {
    let r = integers(b"99999999999,").read_u32();
    assert_eq!(r.unwrap_err(), Error::ParseInt(IntegerError::Overflow));
}

#[test]
fn integer_width_limits() {
    assert_eq!(integers(b"4294967295,").read_u32().unwrap().value, u32::MAX);
    assert_eq!(
        integers(b"4294967296,").read_u32().unwrap_err(),
        Error::ParseInt(IntegerError::Overflow)
    );
    assert_eq!(integers(b"-2147483648,").read_i32().unwrap().value, i32::MIN);
    assert_eq!(integers(b"2147483647,").read_i32().unwrap().value, i32::MAX);
    assert_eq!(
        integers(b"2147483648,").read_i32().unwrap_err(),
        Error::ParseInt(IntegerError::Overflow)
    );
    assert_eq!(
        integers(b"-2147483648.5,").read_i32().unwrap_err(),
        Error::ParseInt(IntegerError::Overflow)
    );
    assert_eq!(
        integers(b"-1,").read_u32().unwrap_err(),
        Error::ParseInt(IntegerError::Overflow)
    );
    assert_eq!(integers(b"-0,").read_u32().unwrap().value, 0);
}

#[test]
fn raw_read_keeps_large_magnitudes_out_of_range() {
    let w = integers(b"123456789012345678901234567890;").read().unwrap();
    assert!(w.value >= 0x100_0000_0000);
    assert_eq!(w.terminator, Terminator::Semicolon);
    let w = integers(b"-123456789012345678901234567890.1\n").read().unwrap();
    assert!(w.value <= -0x100_0000_0000);
    assert_eq!(w.terminator, Terminator::Newline);
    assert_eq!(integers(b"+42;").read().unwrap().value, 42);
}

#[test]
fn invalid_terminator_is_reported() {
    assert_eq!(
        integers(b"12x").read_i32().unwrap_err(),
        Error::ParseInt(IntegerError::InvalidTerminator)
    );
    assert_eq!(
        integers(b"1.2.3,").read_i32().unwrap_err(),
        Error::ParseInt(IntegerError::InvalidTerminator)
    );
}

#[test]
fn non_ascii_byte_is_reported() {
    assert_eq!(
        integers(&[0x31, 0xff, 0x2c]).read_i32().unwrap_err(),
        Error::NonAsciiByte { byte: 0xff }
    );
    assert_eq!(
        integers(&[0x0d, 0x0a]).read_i32().unwrap_err(),
        Error::NonAsciiByte { byte: 0x0d }
    );
}

#[test]
fn input_ending_mid_field_is_eof() {
    assert_eq!(integers(b"").read_i32().unwrap_err(), Error::UnexpectedEof);
    assert_eq!(integers(b"12").read_i32().unwrap_err(), Error::UnexpectedEof);
    assert_eq!(integers(b"-").read_i32().unwrap_err(), Error::UnexpectedEof);
    assert_eq!(integers(b"3.25").read_i32().unwrap_err(), Error::UnexpectedEof);
}

#[test]
fn field_length_cap() {
    let mut long = vec![b'0'; 47];
    long.push(b'5');
    long.push(b',');
    assert_eq!(integers(&long).read_i32().unwrap().value, 5);
    let mut too_long = vec![b'0'; 48];
    too_long.push(b'5');
    too_long.push(b',');
    assert_eq!(
        integers(&too_long).read_i32().unwrap_err(),
        Error::FieldTooLong { max: 48 }
    );
}

#[test]
fn consecutive_fields_consume_their_terminators() {
    let mut s = integers(b"1,-2;3\n");
    let a = s.read_i32().unwrap();
    let b = s.read_i32().unwrap();
    let c = s.read_i32().unwrap();
    assert_eq!((a.value, a.terminator), (1, Terminator::Comma));
    assert_eq!((b.value, b.terminator), (-2, Terminator::Semicolon));
    assert_eq!((c.value, c.terminator), (3, Terminator::Newline));
    assert_eq!(s.into_inner().len(), 0);
}

#[test]
fn expect_terminator_checks_shape() {
    let w = integers(b"5\n").read_i32().unwrap();
    assert_eq!(
        w.expect_terminator(Terminator::Comma),
        Err(Error::UnexpectedTerminator {
            expected: Terminator::Comma,
            actual: Terminator::Newline
        })
    );
    let w = integers(b"5\n").read_i32().unwrap();
    assert_eq!(w.expect_terminator(Terminator::Newline), Ok(5));
}

#[test]
fn terminator_from_byte() {
    assert_eq!(Terminator::from_byte(b','), Some(Terminator::Comma));
    assert_eq!(Terminator::from_byte(b';'), Some(Terminator::Semicolon));
    assert_eq!(Terminator::from_byte(b'\n'), Some(Terminator::Newline));
    assert_eq!(Terminator::from_byte(b'.'), None);
}

#[test]
fn response_scalars() {
    let mut r = response(b"7,-8\n");
    assert_eq!(r.next_i32(), Ok(7));
    assert_eq!(r.final_i32(), Ok(-8));
    let mut r = response(b"7\n");
    assert_eq!(
        r.next_i32(),
        Err(Error::UnexpectedTerminator {
            expected: Terminator::Comma,
            actual: Terminator::Newline
        })
    );
}

#[test]
fn response_blocks() {
    let mut r = response(b"1,5;2,0\n");
    assert_eq!(r.next_block(), Ok(Block::new(1, 5)));
    assert_eq!(r.final_block(), Ok(Block::new(2, 0)));
    let mut r = response(b"1;5\n");
    assert_eq!(
        r.final_block(),
        Err(Error::UnexpectedTerminator {
            expected: Terminator::Comma,
            actual: Terminator::Semicolon
        })
    );
    let mut r = response(b"1,5\n");
    assert_eq!(
        r.next_block(),
        Err(Error::UnexpectedTerminator {
            expected: Terminator::Semicolon,
            actual: Terminator::Newline
        })
    );
}

#[test]
fn response_coordinate() {
    let mut r = response(b"10,-64.5,3.7\n");
    assert_eq!(r.final_coordinate(), Ok(Coordinate::new(10, -65, 3)));
    assert_eq!(r.into_reader().len(), 0);
    let mut r = response(b"1,2\n");
    assert_eq!(
        r.final_coordinate(),
        Err(Error::UnexpectedTerminator {
            expected: Terminator::Comma,
            actual: Terminator::Newline
        })
    );
}

#[test]
fn byte_cursor_peek_next_fill() {
    let mut r = BufReader::new();
    assert_eq!(r.peek(), Err(Error::UnexpectedEof));
    assert_eq!(r.next(), Err(Error::UnexpectedEof));
    r.fill(b"ab");
    assert_eq!(r.peek(), Ok(b'a'));
    assert_eq!(r.next(), Ok(b'a'));
    r.fill(b"c");
    assert_eq!(r.len(), 2);
    assert_eq!(r.next(), Ok(b'b'));
    assert_eq!(r.next(), Ok(b'c'));
    assert_eq!(r.peek(), Err(Error::UnexpectedEof));
}

#[test]
fn response_split_across_fills() {
    let mut r = BufReader::new();
    r.fill(b"12");
    r.fill(b"3,4");
    r.fill(b"5\n");
    let mut s = ResponseStream::new(r);
    assert_eq!(s.next_i32(), Ok(123));
    assert_eq!(s.final_i32(), Ok(45));
}
