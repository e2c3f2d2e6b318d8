use vstd::prelude::*;
use crate::value::Value;

verus! {

/// An instruction of the machine, bound to one byte.
#[derive(Clone, Copy, Debug, PartialEq, Eq, Structural)]
pub enum OpCode {
    Return,
}

impl OpCode {
    /// The instruction that a byte stands for, if any.
    pub open spec fn decode(byte: u8) -> Option<OpCode> {
        if byte == 0x00 {
            Some(OpCode::Return)
        } else {
            None
        }
    }

    /// The byte that stands for this instruction.
    pub open spec fn byte(self) -> u8 {
        match self {
            OpCode::Return => 0x00,
        }
    }

    /// The name under which disassembly shows this instruction.
    pub open spec fn mnemonic(self) -> Seq<char> {
        match self {
            OpCode::Return => "RETURN"@,
        }
    }

    pub fn from_byte(byte: u8) -> (r: Option<Self>)
        ensures
            r == Self::decode(byte),
    {
        if byte == 0x00 {
            Some(OpCode::Return)
        } else {
            None
        }
    }

    pub fn to_byte(self) -> (r: u8)
        ensures
            r == self.byte(),
            Self::decode(r) == Some(self),
    {
        match self {
            OpCode::Return => 0x00,
        }
    }

    fn push_mnemonic(self, out: &mut String)
        ensures
            final(out)@ == old(out)@ + self.mnemonic(),
    {
        match self {
            OpCode::Return => out.append("RETURN"),
        }
    }
}

/// The upper-case hexadecimal digit for `n`.
pub open spec fn hex_digit(n: nat) -> char {
    if n < 10 {
        (('0' as nat) + n) as char
    } else {
        (('A' as nat) + n - 10) as char
    }
}

/// `n` in upper-case hexadecimal, padded with zeros to at least `width` digits.
pub open spec fn hex(n: nat, width: nat) -> Seq<char>
    decreases n + width,
{
    if n < 16 && width <= 1 {
        seq![hex_digit(n)]
    } else {
        hex(n / 16, if width > 0 { (width - 1) as nat } else { 0 }).push(hex_digit(n % 16))
    }
}

/// The disassembly line for the byte `byte` at `offset`: the offset in four
/// hexadecimal digits, then the instruction's mnemonic, or the byte in two
/// hexadecimal digits when it stands for no instruction.
pub open spec fn disassembly_line(offset: nat, byte: u8) -> Seq<char> {
    hex(offset, 4) + seq![' '] + match OpCode::decode(byte) {
        Some(op) => op.mnemonic(),
        None => hex(byte as nat, 2),
    }
}

fn hex_digit_char(n: usize) -> (r: char)
    requires
        n < 16,
    ensures
        r == hex_digit(n as nat),
{
    if n < 10 {
        ((('0' as u8) + n as u8) as char)
    } else {
        ((('A' as u8) + (n - 10) as u8) as char)
    }
}

fn push_hex(out: &mut String, n: usize, width: usize)
    ensures
        final(out)@ == old(out)@ + hex(n as nat, width as nat),
    decreases n + width,
{
    if n >= 16 || width > 1 {
        let w = if width > 0 {
            width - 1
        } else {
            0
        };
        push_hex(out, n / 16, w);
        let d = hex_digit_char(n % 16);
        proof {
            assert(old(out)@ + hex(n as nat, width as nat) =~= old(out)@ + hex(
                (n / 16) as nat,
                w as nat,
            ) + seq![d]);
        }
        out.push(d);
        assert(final(out)@ =~= old(out)@ + hex(n as nat, width as nat));
    } else {
        let d = hex_digit_char(n);
        out.push(d);
        assert(final(out)@ =~= old(out)@ + hex(n as nat, width as nat));
    }
}

/// A block's contents: instruction bytes and constant pool.
pub struct BlockView {
    pub code: Seq<u8>,
    pub constants: Seq<Value>,
}

/// A program unit: an instruction byte stream and an ordered constant pool.
#[derive(Debug)]
pub struct Block {
    code: Vec<u8>,
    constants: Vec<Value>,
}

impl View for Block {
    type V = BlockView;

    closed spec fn view(&self) -> BlockView {
        BlockView { code: self.code@, constants: self.constants@ }
    }
}

impl Block {
    /// An empty block.
    pub fn new() -> (r: Self)
        ensures
            r@.code == Seq::<u8>::empty(),
            r@.constants == Seq::<Value>::empty(),
    {
        Block { code: Vec::new(), constants: Vec::new() }
    }

    /// Appends one instruction byte.
    pub fn push(&mut self, byte: u8)
        ensures
            final(self)@.code == old(self)@.code.push(byte),
            final(self)@.constants == old(self)@.constants,
    {
        self.code.push(byte);
    }

    /// Appends a value to the constant pool; its index is the pool's former
    /// length.
    pub fn push_constant(&mut self, value: Value)
        ensures
            final(self)@.code == old(self)@.code,
            final(self)@.constants == old(self)@.constants.push(value),
    {
        self.constants.push(value);
    }

    /// The instruction bytes.
    pub fn code(&self) -> (r: &Vec<u8>)
        ensures
            r@ == self@.code,
    {
        &self.code
    }

    /// The constant pool.
    pub fn constants(&self) -> (r: &Vec<Value>)
        ensures
            r@ == self@.constants,
    {
        &self.constants
    }

    /// One line per instruction byte, from offset 0 on.
    pub fn disassemble(&self) -> (r: Vec<String>)
        ensures
            r.len() == self@.code.len(),
            forall|i: int|
                0 <= i < r.len() ==> #[trigger] r[i]@ == disassembly_line(i as nat, self@.code[i]),
    {
        let mut lines: Vec<String> = Vec::new();
        let mut offset: usize = 0;
        while offset < self.code.len()
            invariant
                offset <= self.code.len(),
                lines.len() == offset,
                forall|i: int|
                    0 <= i < offset ==> #[trigger] lines[i]@ == disassembly_line(
                        i as nat,
                        self.code@[i],
                    ),
            decreases self.code.len() - offset,
        {
            let byte = self.code[offset];
            let mut line = String::new();
            push_hex(&mut line, offset, 4);
            line.push(' ');
            match OpCode::from_byte(byte) {
                Some(op) => op.push_mnemonic(&mut line),
                None => push_hex(&mut line, byte as usize, 2),
            }
            assert(line@ =~= disassembly_line(offset as nat, byte));
            lines.push(line);
            offset = offset + 1;
        }
        lines
    }
}

} // verus!
