//! The instruction set.
use vstd::prelude::*;

verus! {

/// One instruction of the stack machine. `OpConstant`, `OpDefineGlobal`,
/// `OpGetGlobal` and `OpSetGlobal` are followed by one operand word, an
/// index into the constant pool; the others stand alone.
#[derive(Clone, Copy, Debug, PartialEq, Eq, Structural)]
pub enum OpCode {
    OpReturn,
    OpConstant,
    OpNegate,
    OpAdd,
    OpSubtract,
    OpMultiply,
    OpDivide,
    OpNil,
    OpTrue,
    OpFalse,
    OpNot,
    OpEqual,
    OpGreater,
    OpLess,
    OpLessEqual,
    OpGreaterEqual,
    OpPrint,
    OpPop,
    OpDefineGlobal,
    OpGetGlobal,
    OpSetGlobal,
}

impl OpCode {
    /// The word that encodes the instruction: 1 for `OpReturn` up to 21 for
    /// `OpSetGlobal`.
    pub open spec fn code(self) -> nat {
        match self {
            OpCode::OpReturn => 1,
            OpCode::OpConstant => 2,
            OpCode::OpNegate => 3,
            OpCode::OpAdd => 4,
            OpCode::OpSubtract => 5,
            OpCode::OpMultiply => 6,
            OpCode::OpDivide => 7,
            OpCode::OpNil => 8,
            OpCode::OpTrue => 9,
            OpCode::OpFalse => 10,
            OpCode::OpNot => 11,
            OpCode::OpEqual => 12,
            OpCode::OpGreater => 13,
            OpCode::OpLess => 14,
            OpCode::OpLessEqual => 15,
            OpCode::OpGreaterEqual => 16,
            OpCode::OpPrint => 17,
            OpCode::OpPop => 18,
            OpCode::OpDefineGlobal => 19,
            OpCode::OpGetGlobal => 20,
            OpCode::OpSetGlobal => 21,
        }
    }

    /// Whether the instruction is followed by an operand word.
    pub open spec fn has_operand(self) -> bool {
        match self {
            OpCode::OpConstant
            | OpCode::OpDefineGlobal
            | OpCode::OpGetGlobal
            | OpCode::OpSetGlobal => true,
            _ => false,
        }
    }

    /// The name under which the instruction is listed.
    pub open spec fn mnemonic(self) -> Seq<char> {
        match self {
            OpCode::OpReturn => "OpReturn"@,
            OpCode::OpConstant => "OpConst"@,
            OpCode::OpNegate => "OpNegate"@,
            OpCode::OpAdd => "OpAdd"@,
            OpCode::OpSubtract => "OpSubtract"@,
            OpCode::OpMultiply => "OpMultiply"@,
            OpCode::OpDivide => "OpDivide"@,
            OpCode::OpNil => "OpNil"@,
            OpCode::OpTrue => "OpTrue"@,
            OpCode::OpFalse => "OpFalse"@,
            OpCode::OpNot => "OpNot"@,
            OpCode::OpEqual => "OpEqualEqual"@,
            OpCode::OpGreater => "OpGreater"@,
            OpCode::OpLess => "OpLess"@,
            OpCode::OpLessEqual => "OpLessEqual"@,
            OpCode::OpGreaterEqual => "OpGreaterEqual"@,
            OpCode::OpPrint => "OpPrint"@,
            OpCode::OpPop => "OpPop"@,
            OpCode::OpDefineGlobal => "OpDefineGlobal"@,
            OpCode::OpGetGlobal => "OpGetGlobal"@,
            OpCode::OpSetGlobal => "OpSetGlobal"@,
        }
    }

    /// The instruction that `value` encodes. No other word than 1 to 21
    /// encodes one.
    pub fn from_usize(value: usize) -> (out: OpCode)
        requires
            is_op_code(value as nat),
        ensures
            out.code() == value,
    {
        match OpCode::decode(value) {
            Some(op) => op,
            None => OpCode::OpReturn,
        }
    }

    /// The instruction that `value` encodes, if it encodes one.
    pub fn decode(value: usize) -> (out: Option<OpCode>)
        ensures
            out == decoded(value as nat),
    {
        if value == 1 {
            Some(OpCode::OpReturn)
        } else if value == 2 {
            Some(OpCode::OpConstant)
        } else if value == 3 {
            Some(OpCode::OpNegate)
        } else if value == 4 {
            Some(OpCode::OpAdd)
        } else if value == 5 {
            Some(OpCode::OpSubtract)
        } else if value == 6 {
            Some(OpCode::OpMultiply)
        } else if value == 7 {
            Some(OpCode::OpDivide)
        } else if value == 8 {
            Some(OpCode::OpNil)
        } else if value == 9 {
            Some(OpCode::OpTrue)
        } else if value == 10 {
            Some(OpCode::OpFalse)
        } else if value == 11 {
            Some(OpCode::OpNot)
        } else if value == 12 {
            Some(OpCode::OpEqual)
        } else if value == 13 {
            Some(OpCode::OpGreater)
        } else if value == 14 {
            Some(OpCode::OpLess)
        } else if value == 15 {
            Some(OpCode::OpLessEqual)
        } else if value == 16 {
            Some(OpCode::OpGreaterEqual)
        } else if value == 17 {
            Some(OpCode::OpPrint)
        } else if value == 18 {
            Some(OpCode::OpPop)
        } else if value == 19 {
            Some(OpCode::OpDefineGlobal)
        } else if value == 20 {
            Some(OpCode::OpGetGlobal)
        } else if value == 21 {
            Some(OpCode::OpSetGlobal)
        } else {
            None
        }
    }

    /// The word that encodes the instruction.
    pub fn to_usize(&self) -> (out: usize)
        ensures
            out == self.code(),
    {
        match self {
            OpCode::OpReturn => 1,
            OpCode::OpConstant => 2,
            OpCode::OpNegate => 3,
            OpCode::OpAdd => 4,
            OpCode::OpSubtract => 5,
            OpCode::OpMultiply => 6,
            OpCode::OpDivide => 7,
            OpCode::OpNil => 8,
            OpCode::OpTrue => 9,
            OpCode::OpFalse => 10,
            OpCode::OpNot => 11,
            OpCode::OpEqual => 12,
            OpCode::OpGreater => 13,
            OpCode::OpLess => 14,
            OpCode::OpLessEqual => 15,
            OpCode::OpGreaterEqual => 16,
            OpCode::OpPrint => 17,
            OpCode::OpPop => 18,
            OpCode::OpDefineGlobal => 19,
            OpCode::OpGetGlobal => 20,
            OpCode::OpSetGlobal => 21,
        }
    }

    /// Whether the instruction is followed by an operand word.
    pub fn takes_operand(&self) -> (out: bool)
        ensures
            out == self.has_operand(),
    {
        match self {
            OpCode::OpConstant
            | OpCode::OpDefineGlobal
            | OpCode::OpGetGlobal
            | OpCode::OpSetGlobal => true,
            _ => false,
        }
    }

    /// The name under which the instruction is listed.
    pub fn name(&self) -> (out: &'static str)
        ensures
            out@ == self.mnemonic(),
    {
        match self {
            OpCode::OpReturn => "OpReturn",
            OpCode::OpConstant => "OpConst",
            OpCode::OpNegate => "OpNegate",
            OpCode::OpAdd => "OpAdd",
            OpCode::OpSubtract => "OpSubtract",
            OpCode::OpMultiply => "OpMultiply",
            OpCode::OpDivide => "OpDivide",
            OpCode::OpNil => "OpNil",
            OpCode::OpTrue => "OpTrue",
            OpCode::OpFalse => "OpFalse",
            OpCode::OpNot => "OpNot",
            OpCode::OpEqual => "OpEqualEqual",
            OpCode::OpGreater => "OpGreater",
            OpCode::OpLess => "OpLess",
            OpCode::OpLessEqual => "OpLessEqual",
            OpCode::OpGreaterEqual => "OpGreaterEqual",
            OpCode::OpPrint => "OpPrint",
            OpCode::OpPop => "OpPop",
            OpCode::OpDefineGlobal => "OpDefineGlobal",
            OpCode::OpGetGlobal => "OpGetGlobal",
            OpCode::OpSetGlobal => "OpSetGlobal",
        }
    }
}

/// Whether `value` encodes an instruction.
pub open spec fn is_op_code(value: nat) -> bool {
    1 <= value <= 21
}

/// The instruction that `value` encodes, if any.
pub open spec fn decoded(value: nat) -> Option<OpCode> {
    if value == 1 {
        Some(OpCode::OpReturn)
    } else if value == 2 {
        Some(OpCode::OpConstant)
    } else if value == 3 {
        Some(OpCode::OpNegate)
    } else if value == 4 {
        Some(OpCode::OpAdd)
    } else if value == 5 {
        Some(OpCode::OpSubtract)
    } else if value == 6 {
        Some(OpCode::OpMultiply)
    } else if value == 7 {
        Some(OpCode::OpDivide)
    } else if value == 8 {
        Some(OpCode::OpNil)
    } else if value == 9 {
        Some(OpCode::OpTrue)
    } else if value == 10 {
        Some(OpCode::OpFalse)
    } else if value == 11 {
        Some(OpCode::OpNot)
    } else if value == 12 {
        Some(OpCode::OpEqual)
    } else if value == 13 {
        Some(OpCode::OpGreater)
    } else if value == 14 {
        Some(OpCode::OpLess)
    } else if value == 15 {
        Some(OpCode::OpLessEqual)
    } else if value == 16 {
        Some(OpCode::OpGreaterEqual)
    } else if value == 17 {
        Some(OpCode::OpPrint)
    } else if value == 18 {
        Some(OpCode::OpPop)
    } else if value == 19 {
        Some(OpCode::OpDefineGlobal)
    } else if value == 20 {
        Some(OpCode::OpGetGlobal)
    } else if value == 21 {
        Some(OpCode::OpSetGlobal)
    } else {
        None
    }
}

/// The encoding is stable and total: every word from 1 to 21 decodes to
/// exactly one instruction, that instruction encodes back to the word, and
/// no other word decodes.
pub proof fn lemma_encoding_is_a_bijection(value: nat, op: OpCode)
    ensures
        is_op_code(value) <==> decoded(value).is_some(),
        decoded(value) == Some(op) <==> op.code() == value,
        decoded(op.code()) == Some(op),
{
}

} // verus!
