//! Instructions of the stack machine and the chunks that hold them.
use vstd::prelude::*;
use crate::node::OperatorKind;
use crate::value::{Value, SValue};

verus! {

/// One instruction of the stack machine. Its byte is its position in this list.
#[derive(Debug, Clone, Copy)]
pub enum OpCode {
    /// Pushes a constant from the constant pool; operand: one byte, its index.
    Constant,
    /// Pops two values, adds them, pushes the result.
    Add,
    /// Pops two values, subtracts them, pushes the result.
    Subtract,
    /// Pops two values, multiplies them, pushes the result.
    Multiply,
    /// Pops two values, divides them, pushes the result.
    Divide,
    /// Ends execution.
    Return,
    /// Pops a value, negates it, pushes the result.
    Negate,
    /// Defines a global variable; operand: the index of its name among the constants.
    DefineGlobal,
    /// Pushes the value of a global variable; operand: the index of its name.
    GetGlobal,
    /// Assigns the top of the stack to an existing global; operand: the index of its name.
    SetGlobal,
    OpTrue,
    OpFalse,
    OpNot,
    OpEqual,
    OpGreater,
    OpLess,
    OpModulo,
    JumpIfFalse,
    Jump,
    Pop,
    Nil,
    Call,
}

/// The byte that encodes an instruction.
pub open spec fn op_byte(op: OpCode) -> u8 {
    match op {
        OpCode::Constant => 0,
        OpCode::Add => 1,
        OpCode::Subtract => 2,
        OpCode::Multiply => 3,
        OpCode::Divide => 4,
        OpCode::Return => 5,
        OpCode::Negate => 6,
        OpCode::DefineGlobal => 7,
        OpCode::GetGlobal => 8,
        OpCode::SetGlobal => 9,
        OpCode::OpTrue => 10,
        OpCode::OpFalse => 11,
        OpCode::OpNot => 12,
        OpCode::OpEqual => 13,
        OpCode::OpGreater => 14,
        OpCode::OpLess => 15,
        OpCode::OpModulo => 16,
        OpCode::JumpIfFalse => 17,
        OpCode::Jump => 18,
        OpCode::Pop => 19,
        OpCode::Nil => 20,
        OpCode::Call => 21,
    }
}

/// The instruction a byte encodes, if any.
pub open spec fn op_of_byte(b: u8) -> Option<OpCode> {
    if b == 0 {
        Some(OpCode::Constant)
    } else if b == 1 {
        Some(OpCode::Add)
    } else if b == 2 {
        Some(OpCode::Subtract)
    } else if b == 3 {
        Some(OpCode::Multiply)
    } else if b == 4 {
        Some(OpCode::Divide)
    } else if b == 5 {
        Some(OpCode::Return)
    } else if b == 6 {
        Some(OpCode::Negate)
    } else if b == 7 {
        Some(OpCode::DefineGlobal)
    } else if b == 8 {
        Some(OpCode::GetGlobal)
    } else if b == 9 {
        Some(OpCode::SetGlobal)
    } else if b == 10 {
        Some(OpCode::OpTrue)
    } else if b == 11 {
        Some(OpCode::OpFalse)
    } else if b == 12 {
        Some(OpCode::OpNot)
    } else if b == 13 {
        Some(OpCode::OpEqual)
    } else if b == 14 {
        Some(OpCode::OpGreater)
    } else if b == 15 {
        Some(OpCode::OpLess)
    } else if b == 16 {
        Some(OpCode::OpModulo)
    } else if b == 17 {
        Some(OpCode::JumpIfFalse)
    } else if b == 18 {
        Some(OpCode::Jump)
    } else if b == 19 {
        Some(OpCode::Pop)
    } else if b == 20 {
        Some(OpCode::Nil)
    } else if b == 21 {
        Some(OpCode::Call)
    } else {
        None
    }
}

/// The equality of instructions: it holds only between two equal instructions of
/// the control group (`Return`, `Constant`, `Nil`, `OpTrue`, `OpFalse`, `Pop`,
/// the four arithmetic instructions, `Jump` and `JumpIfFalse`); every other
/// pair, two equal instructions outside that group included, is unequal.
pub open spec fn op_eq(a: OpCode, b: OpCode) -> bool {
    match (a, b) {
        (OpCode::Return, OpCode::Return) => true,
        (OpCode::Constant, OpCode::Constant) => true,
        (OpCode::Nil, OpCode::Nil) => true,
        (OpCode::OpTrue, OpCode::OpTrue) => true,
        (OpCode::OpFalse, OpCode::OpFalse) => true,
        (OpCode::Pop, OpCode::Pop) => true,
        (OpCode::Add, OpCode::Add) => true,
        (OpCode::Subtract, OpCode::Subtract) => true,
        (OpCode::Multiply, OpCode::Multiply) => true,
        (OpCode::Divide, OpCode::Divide) => true,
        (OpCode::Jump, OpCode::Jump) => true,
        (OpCode::JumpIfFalse, OpCode::JumpIfFalse) => true,
        _ => false,
    }
}

impl PartialEq for OpCode {
    fn eq(&self, other: &Self) -> (res: bool) {
        match (self, other) {
            (OpCode::Return, OpCode::Return) => true,
            (OpCode::Constant, OpCode::Constant) => true,
            (OpCode::Nil, OpCode::Nil) => true,
            (OpCode::OpTrue, OpCode::OpTrue) => true,
            (OpCode::OpFalse, OpCode::OpFalse) => true,
            (OpCode::Pop, OpCode::Pop) => true,
            (OpCode::Add, OpCode::Add) => true,
            (OpCode::Subtract, OpCode::Subtract) => true,
            (OpCode::Multiply, OpCode::Multiply) => true,
            (OpCode::Divide, OpCode::Divide) => true,
            (OpCode::Jump, OpCode::Jump) => true,
            (OpCode::JumpIfFalse, OpCode::JumpIfFalse) => true,
            _ => false,
        }
    }
}

impl vstd::std_specs::cmp::PartialEqSpecImpl for OpCode {
    open spec fn obeys_eq_spec() -> bool {
        true
    }

    open spec fn eq_spec(&self, other: &Self) -> bool {
        op_eq(*self, *other)
    }
}

/// The instruction of an arithmetic operator; no other operator has one.
pub open spec fn op_of_operator(op: OperatorKind) -> Option<OpCode> {
    match op {
        OperatorKind::Add => Some(OpCode::Add),
        OperatorKind::Subtract => Some(OpCode::Subtract),
        OperatorKind::Multiply => Some(OpCode::Multiply),
        OperatorKind::Divide => Some(OpCode::Divide),
        _ => None,
    }
}

impl OpCode {
    /// The byte that encodes this instruction.
    pub fn byte(&self) -> (res: u8)
        ensures
            res == op_byte(*self),
            op_of_byte(res) == Some(*self),
    {
        match self {
            OpCode::Constant => 0,
            OpCode::Add => 1,
            OpCode::Subtract => 2,
            OpCode::Multiply => 3,
            OpCode::Divide => 4,
            OpCode::Return => 5,
            OpCode::Negate => 6,
            OpCode::DefineGlobal => 7,
            OpCode::GetGlobal => 8,
            OpCode::SetGlobal => 9,
            OpCode::OpTrue => 10,
            OpCode::OpFalse => 11,
            OpCode::OpNot => 12,
            OpCode::OpEqual => 13,
            OpCode::OpGreater => 14,
            OpCode::OpLess => 15,
            OpCode::OpModulo => 16,
            OpCode::JumpIfFalse => 17,
            OpCode::Jump => 18,
            OpCode::Pop => 19,
            OpCode::Nil => 20,
            OpCode::Call => 21,
        }
    }

    /// The instruction a byte encodes; `None` for a byte that encodes none.
    pub fn decode(b: u8) -> (res: Option<OpCode>)
        ensures
            res == op_of_byte(b),
    {
        if b == 0 {
            Some(OpCode::Constant)
        } else if b == 1 {
            Some(OpCode::Add)
        } else if b == 2 {
            Some(OpCode::Subtract)
        } else if b == 3 {
            Some(OpCode::Multiply)
        } else if b == 4 {
            Some(OpCode::Divide)
        } else if b == 5 {
            Some(OpCode::Return)
        } else if b == 6 {
            Some(OpCode::Negate)
        } else if b == 7 {
            Some(OpCode::DefineGlobal)
        } else if b == 8 {
            Some(OpCode::GetGlobal)
        } else if b == 9 {
            Some(OpCode::SetGlobal)
        } else if b == 10 {
            Some(OpCode::OpTrue)
        } else if b == 11 {
            Some(OpCode::OpFalse)
        } else if b == 12 {
            Some(OpCode::OpNot)
        } else if b == 13 {
            Some(OpCode::OpEqual)
        } else if b == 14 {
            Some(OpCode::OpGreater)
        } else if b == 15 {
            Some(OpCode::OpLess)
        } else if b == 16 {
            Some(OpCode::OpModulo)
        } else if b == 17 {
            Some(OpCode::JumpIfFalse)
        } else if b == 18 {
            Some(OpCode::Jump)
        } else if b == 19 {
            Some(OpCode::Pop)
        } else if b == 20 {
            Some(OpCode::Nil)
        } else if b == 21 {
            Some(OpCode::Call)
        } else {
            None
        }
    }

    /// The instruction of an arithmetic operator (`+ - * /`). Any other
    /// operator has none; it is left out.
    pub fn from(op: OperatorKind) -> (res: OpCode)
        requires
            op_of_operator(op) is Some,
        ensures
            op_of_operator(op) == Some(res),
    {
        match op {
            OperatorKind::Add => OpCode::Add,
            OperatorKind::Subtract => OpCode::Subtract,
            OperatorKind::Multiply => OpCode::Multiply,
            _ => OpCode::Divide,
        }
    }
}

/// The model of a list of values.
pub open spec fn values_view(s: Seq<Value>) -> Seq<SValue> {
    s.map_values(|v: Value| v@)
}

/// The model of a chunk: its bytes and the models of its constants.
pub struct SChunk {
    pub code: Seq<u8>,
    pub constants: Seq<SValue>,
}

/// A sequence of instructions with the constants they refer to.
pub struct Chunk {
    pub code: Vec<u8>,
    pub constants: Vec<Value>,
}

impl View for Chunk {
    type V = SChunk;

    open spec fn view(&self) -> SChunk {
        SChunk { code: self.code@, constants: values_view(self.constants@) }
    }
}

impl Default for Chunk {
    fn default() -> (res: Self)
        ensures
            res.code@.len() == 0,
            res.constants@.len() == 0,
    {
        Self::new()
    }
}

impl Chunk {
    /// An empty chunk.
    pub fn new() -> (res: Self)
        ensures
            res.code@.len() == 0,
            res.constants@.len() == 0,
            res@ == (SChunk { code: Seq::empty(), constants: Seq::empty() }),
    {
        let res = Chunk { code: Vec::new(), constants: Vec::new() };
        assert(values_view(res.constants@) =~= Seq::<SValue>::empty());
        res
    }

    /// Appends one byte to the code.
    pub fn write(&mut self, byte: u8)
        ensures
            final(self).code@ == old(self).code@.push(byte),
            final(self).constants@ == old(self).constants@,
            final(self)@ == (SChunk { code: old(self)@.code.push(byte), constants: old(self)@.constants }),
    {
        self.code.push(byte);
    }

    /// Adds a constant to the pool and returns its index, taken modulo 256.
    pub fn add_constant(&mut self, value: Value) -> (res: u8)
        ensures
            final(self).code@ == old(self).code@,
            final(self).constants@ == old(self).constants@.push(value),
            res == old(self).constants@.len() as u8,
            final(self)@ == (SChunk { code: old(self)@.code, constants: old(self)@.constants.push(value@) }),
    {
        proof {
            assert(values_view(self.constants@.push(value)) =~= values_view(self.constants@).push(value@));
        }
        self.constants.push(value);
        (self.constants.len() - 1) as u8
    }
}

/// The number of bytes an instruction takes: the opcode and its operands.
pub open spec fn op_width(op: OpCode) -> nat {
    match op {
        OpCode::Constant | OpCode::DefineGlobal | OpCode::GetGlobal | OpCode::SetGlobal => 2,
        OpCode::JumpIfFalse | OpCode::Jump => 3,
        _ => 1,
    }
}

impl OpCode {
    /// The number of bytes this instruction takes (see [`op_width`]).
    pub fn width(&self) -> (res: usize)
        ensures
            res == op_width(*self),
    {
        match self {
            OpCode::Constant | OpCode::DefineGlobal | OpCode::GetGlobal | OpCode::SetGlobal => 2,
            OpCode::JumpIfFalse | OpCode::Jump => 3,
            _ => 1,
        }
    }
}

impl Chunk {
    /// The two-byte operand of the jump at `offset`, high byte first.
    pub fn jump_distance(&self, offset: usize) -> (res: usize)
        requires
            offset + 2 < self.code@.len(),
        ensures
            res == self.code@[offset + 1] * 256 + self.code@[offset + 2],
    {
        let len = self.code.len();
        assert(offset + 2 < len);
        (self.code[offset + 1] as usize) * 256 + (self.code[offset + 2] as usize)
    }

    /// Where the jump at `offset` lands: after its three bytes, plus its
    /// distance; the address must fit in a `usize`.
    pub fn jump_target(&self, offset: usize) -> (res: usize)
        requires
            offset + 2 < self.code@.len(),
            offset + 3 + self.code@[offset + 1] * 256 + self.code@[offset + 2] <= usize::MAX,
        ensures
            res == offset + 3 + self.code@[offset + 1] * 256 + self.code@[offset + 2],
    {
        offset + 3 + self.jump_distance(offset)
    }
}

} // verus!
