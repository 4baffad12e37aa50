//! Serialization of outbound commands: `name(arg1,arg2,...)\n`.
use vstd::prelude::*;

use crate::argument::Argument;
use crate::block::Block;
use crate::coordinate::Coordinate;
use crate::coordinate2d::Coordinate2D;
use crate::wire::{COMMA, MINUS, NEWLINE, ZERO};

verus! {

pub const OPEN_PAREN: u8 = 0x28;

pub const CLOSE_PAREN: u8 = 0x29;

pub const SPACE: u8 = 0x20;

/// Decimal digits of a natural number, most significant first.
pub open spec fn digits_of(n: nat) -> Seq<u8>
    decreases n,
{
    if n < 10 {
        seq![(ZERO + n) as u8]
    } else {
        digits_of(n / 10).push((ZERO + n % 10) as u8)
    }
}

/// Decimal ASCII text of an integer.
pub open spec fn decimal(v: int) -> Seq<u8> {
    if v < 0 {
        seq![MINUS] + digits_of((-v) as nat)
    } else {
        digits_of(v as nat)
    }
}

/// What one character of a string argument becomes on the wire: a newline
/// turns into a space, tab and printable ASCII stay, anything else is dropped.
pub open spec fn sanitize_char(c: char) -> Seq<u8> {
    if c == '\n' {
        seq![SPACE]
    } else if c == '\t' || (' ' <= c && c <= '~') {
        seq![c as u8]
    } else {
        Seq::empty()
    }
}

/// Wire bytes of a string argument.
pub open spec fn sanitize(s: Seq<char>) -> Seq<u8>
    decreases s.len(),
{
    if s.len() == 0 {
        Seq::empty()
    } else {
        sanitize(s.drop_last()) + sanitize_char(s.last())
    }
}

/// Characters allowed in a command name.
pub open spec fn is_name_char(c: char) -> bool {
    ('a' <= c && c <= 'z') || ('A' <= c && c <= 'Z') || c == '.'
}

/// A command name: letters and dots, not empty, neither starting nor ending with a dot.
pub open spec fn is_valid_name(s: Seq<char>) -> bool {
    &&& s.len() > 0
    &&& forall|i: int| 0 <= i < s.len() ==> is_name_char(#[trigger] s[i])
    &&& s[0] != '.'
    &&& s.last() != '.'
}

/// Every byte is ASCII.
pub open spec fn is_ascii_bytes(b: Seq<u8>) -> bool {
    forall|i: int| 0 <= i < b.len() ==> #[trigger] b[i] < 0x80
}

/// The bytes of ASCII chars.
pub open spec fn ascii_bytes(s: Seq<char>) -> Seq<u8> {
    s.map_values(|c: char| c as u8)
}

/// The chars of ASCII bytes.
pub open spec fn ascii_chars(b: Seq<u8>) -> Seq<char> {
    b.map_values(|x: u8| x as char)
}

/// Relies on `String::from_utf8`: ASCII bytes are valid UTF-8, and each byte
/// decodes to the character with the same code.
#[verifier::external_body]
fn ascii_string(bytes: Vec<u8>) -> (r: String)
    requires
        forall|i: int| 0 <= i < bytes@.len() ==> bytes@[i] < 0x80,
    ensures
        r@ == ascii_chars(bytes@),
{
    match String::from_utf8(bytes) {
        Ok(s) => s,
        Err(_) => String::new(),
    }
}

proof fn lemma_digits_ascii(n: nat)
    ensures
        is_ascii_bytes(digits_of(n)),
        digits_of(n).len() >= 1,
    decreases n,
{
    if n >= 10 {
        lemma_digits_ascii(n / 10);
    }
}

proof fn lemma_decimal_ascii(v: int)
    ensures
        is_ascii_bytes(decimal(v)),
{
    if v < 0 {
        lemma_digits_ascii((-v) as nat);
    } else {
        lemma_digits_ascii(v as nat);
    }
}

proof fn lemma_sanitize_ascii(s: Seq<char>)
    ensures
        is_ascii_bytes(sanitize(s)),
    decreases s.len(),
{
    if s.len() > 0 {
        lemma_sanitize_ascii(s.drop_last());
    }
}

/// Append the decimal digits of `n`.
pub(crate) fn push_digits(out: &mut Vec<u8>, n: u32)
    ensures
        final(out)@ == old(out)@ + digits_of(n as nat),
    decreases n,
{
    if n >= 10 {
        push_digits(out, n / 10);
    }
    out.push(ZERO + (n % 10) as u8);
    assert(final(out)@ =~= old(out)@ + digits_of(n as nat));
}

/// Append the decimal text of `v`.
pub(crate) fn push_i32(out: &mut Vec<u8>, v: i32)
    ensures
        final(out)@ == old(out)@ + decimal(v as int),
{
    if v < 0 {
        out.push(MINUS);
        push_digits(out, (-(v as i64)) as u32);
    } else {
        push_digits(out, v as u32);
    }
    assert(final(out)@ =~= old(out)@ + decimal(v as int));
}

/// Append the decimal text of `v`.
pub(crate) fn push_u32(out: &mut Vec<u8>, v: u32)
    ensures
        final(out)@ == old(out)@ + decimal(v as int),
{
    push_digits(out, v);
}

/// Append the sanitized bytes of a string argument.
pub(crate) fn push_sanitized(out: &mut Vec<u8>, s: &str)
    ensures
        final(out)@ == old(out)@ + sanitize(s@),
{
    let len = s.unicode_len();
    let mut i: usize = 0;
    assert(s@.subrange(0, 0) =~= Seq::<char>::empty());
    while i < len
        invariant
            len == s@.len(),
            i <= len,
            out@ == old(out)@ + sanitize(s@.subrange(0, i as int)),
        decreases len - i,
    {
        let c = s.get_char(i);
        if c == '\n' {
            out.push(SPACE);
        } else if c == '\t' || (' ' <= c && c <= '~') {
            out.push(c as u32 as u8);
        }
        assert(s@.subrange(0, i + 1).drop_last() =~= s@.subrange(0, i as int));
        i += 1;
        assert(out@ =~= old(out)@ + sanitize(s@.subrange(0, i as int)));
    }
    assert(s@.subrange(0, len as int) =~= s@);
}

/// Whether `name` can be used as a command name: letters and dots only, not
/// empty, neither starting nor ending with a dot.
pub fn is_valid_command_name(name: &str) -> (r: bool)
    ensures
        r == is_valid_name(name@),
{
    let len = name.unicode_len();
    if len == 0 {
        return false;
    }
    let mut i: usize = 0;
    while i < len
        invariant
            len == name@.len(),
            i <= len,
            forall|k: int| 0 <= k < i ==> is_name_char(#[trigger] name@[k]),
        decreases len - i,
    {
        let c = name.get_char(i);
        if !(('a' <= c && c <= 'z') || ('A' <= c && c <= 'Z') || c == '.') {
            assert(!is_name_char(name@[i as int]));
            return false;
        }
        i += 1;
    }
    name.get_char(0) != '.' && name.get_char(len - 1) != '.'
}

/// An outbound command being built: `name(` followed by the arguments so far.
#[derive(Debug)]
pub struct Command {
    command: Vec<u8>,
    has_args: bool,
}

impl Command {
    #[verifier::type_invariant]
    spec fn inv(self) -> bool {
        is_ascii_bytes(self.command@)
    }

    /// The bytes written so far.
    pub closed spec fn text(&self) -> Seq<u8> {
        self.command@
    }

    /// Whether an argument was written already.
    pub closed spec fn has_args(&self) -> bool {
        self.has_args
    }

    /// Start the command `name(`.
    pub fn new(name: &str) -> (r: Self)
        requires
            is_valid_name(name@),
        ensures
            r.text() == ascii_bytes(name@) + seq![OPEN_PAREN],
            !r.has_args(),
    {
        let len = name.unicode_len();
        let mut command: Vec<u8> = Vec::new();
        let mut i: usize = 0;
        while i < len
            invariant
                len == name@.len(),
                i <= len,
                is_valid_name(name@),
                command@ == ascii_bytes(name@.subrange(0, i as int)),
            decreases len - i,
        {
            let c = name.get_char(i);
            assert(is_name_char(name@[i as int]));
            command.push(c as u32 as u8);
            i += 1;
            assert(command@ =~= ascii_bytes(name@.subrange(0, i as int)));
        }
        command.push(OPEN_PAREN);
        assert(name@.subrange(0, len as int) =~= name@);
        assert(command@ =~= ascii_bytes(name@) + seq![OPEN_PAREN]);
        Command { command, has_args: false }
    }

    /// Append one argument, after a comma unless it is the first.
    fn arg(self, argument: Argument) -> (r: Self)
        ensures
            r.text() == self.text() + (if self.has_args() {
                seq![COMMA]
            } else {
                Seq::empty()
            }) + argument.wire_spec(),
            r.has_args(),
    {
        proof {
            use_type_invariant(&self);
        }
        let mut command = self.command;
        let ghost before = command@;
        if self.has_args {
            command.push(COMMA);
        }
        let ghost separated = command@;
        argument.write_to(&mut command);
        proof {
            lemma_wire_ascii(&argument);
            assert(command@ =~= separated + argument.wire_spec());
            assert(is_ascii_bytes(command@)) by {
                assert forall|i: int| 0 <= i < command@.len() implies #[trigger] command@[i] < 0x80 by {
                    if i < separated.len() {
                        assert(command@[i] == separated[i]);
                        if i >= before.len() {
                            assert(separated[i] == COMMA);
                        }
                    } else {
                        assert(command@[i] == argument.wire_spec()[i - separated.len()]);
                    }
                }
            }
        }
        let r = Command { command, has_args: true };
        assert(r.text() =~= self.text() + (if self.has_args() {
            seq![COMMA]
        } else {
            Seq::empty()
        }) + argument.wire_spec());
        r
    }

    /// Append an integer argument.
    pub fn arg_int(self, value: i32) -> (r: Self)
        ensures
            r.text() == self.text() + (if self.has_args() {
                seq![COMMA]
            } else {
                Seq::empty()
            }) + decimal(value as int),
            r.has_args(),
    {
        self.arg(Argument::Int(value))
    }

    /// Append a text argument, sanitized.
    pub fn arg_string(self, string: &str) -> (r: Self)
        ensures
            r.text() == self.text() + (if self.has_args() {
                seq![COMMA]
            } else {
                Seq::empty()
            }) + sanitize(string@),
            r.has_args(),
    {
        self.arg(Argument::Text(string.to_owned()))
    }

    /// Append a coordinate as `x,y,z`.
    pub fn arg_coordinate(self, coordinate: Coordinate) -> (r: Self)
        ensures
            r.text() == self.text() + (if self.has_args() {
                seq![COMMA]
            } else {
                Seq::empty()
            }) + Argument::Coordinate(coordinate).wire_spec(),
            r.has_args(),
    {
        self.arg(Argument::Coordinate(coordinate))
    }

    /// Append a block as `id,modifier`.
    pub fn arg_block(self, block: Block) -> (r: Self)
        ensures
            r.text() == self.text() + (if self.has_args() {
                seq![COMMA]
            } else {
                Seq::empty()
            }) + Argument::Block(block).wire_spec(),
            r.has_args(),
    {
        self.arg(Argument::Block(block))
    }

    /// Close the command: the complete line, `)` and newline included.
    pub fn build(self) -> (r: String)
        ensures
            r@ == ascii_chars(self.text() + seq![CLOSE_PAREN, NEWLINE]),
    {
        proof {
            use_type_invariant(&self);
        }
        let mut command = self.command;
        command.push(CLOSE_PAREN);
        command.push(NEWLINE);
        assert(command@ =~= self.text() + seq![CLOSE_PAREN, NEWLINE]);
        ascii_string(command)
    }
}

proof fn lemma_wire_ascii(argument: &Argument)
    ensures
        is_ascii_bytes(argument.wire_spec()),
{
    match argument {
        Argument::Coordinate(c) => {
            lemma_decimal_ascii(c.x as int);
            lemma_decimal_ascii(c.y as int);
            lemma_decimal_ascii(c.z as int);
        },
        Argument::Coordinate2D(c) => {
            lemma_decimal_ascii(c.x as int);
            lemma_decimal_ascii(c.z as int);
        },
        Argument::Block(b) => {
            lemma_decimal_ascii(b.id as int);
            lemma_decimal_ascii(b.modifier as int);
        },
        Argument::Int(v) => {
            lemma_decimal_ascii(*v as int);
        },
        Argument::Text(s) => {
            lemma_sanitize_ascii(s@);
        },
    }
}

} // verus!
