use vstd::prelude::*;

use crate::block::Block;
use crate::command::{decimal, push_i32, push_sanitized, push_u32, sanitize};
use crate::coordinate::Coordinate;
use crate::coordinate2d::Coordinate2D;
use crate::wire::COMMA;

verus! {

/// One argument of an outbound command.
#[derive(Debug)]
pub enum Argument {
    /// Written as `x,y,z`.
    Coordinate(Coordinate),
    /// Written as `x,z`.
    Coordinate2D(Coordinate2D),
    /// Written as `id,modifier`.
    Block(Block),
    /// Written in decimal.
    Int(i32),
    /// Free text, sanitized so that it cannot break the framing.
    Text(String),
}

impl Argument {
    /// The bytes this argument puts on the wire.
    pub open spec fn wire_spec(&self) -> Seq<u8> {
        match self {
            Argument::Coordinate(c) => decimal(c.x as int) + seq![COMMA] + decimal(c.y as int) + seq![
                COMMA,
            ] + decimal(c.z as int),
            Argument::Coordinate2D(c) => decimal(c.x as int) + seq![COMMA] + decimal(c.z as int),
            Argument::Block(b) => decimal(b.id as int) + seq![COMMA] + decimal(b.modifier as int),
            Argument::Int(v) => decimal(*v as int),
            Argument::Text(s) => sanitize(s@),
        }
    }

    /// Append the wire bytes of this argument to `out`.
    pub fn write_to(&self, out: &mut Vec<u8>)
        ensures
            final(out)@ == old(out)@ + self.wire_spec(),
    {
        match self {
            Argument::Coordinate(c) => {
                push_i32(out, c.x);
                out.push(COMMA);
                push_i32(out, c.y);
                out.push(COMMA);
                push_i32(out, c.z);
            },
            Argument::Coordinate2D(c) => {
                push_i32(out, c.x);
                out.push(COMMA);
                push_i32(out, c.z);
            },
            Argument::Block(b) => {
                push_u32(out, b.id);
                out.push(COMMA);
                push_u32(out, b.modifier);
            },
            Argument::Int(v) => {
                push_i32(out, *v);
            },
            Argument::Text(s) => {
                push_sanitized(out, s.as_str());
            },
        }
        assert(final(out)@ =~= old(out)@ + self.wire_spec());
    }
}

} // verus!
