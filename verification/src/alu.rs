use vstd::prelude::*;

verus! {

/// Why a transform has no result.
#[derive(Debug, PartialEq, Eq, Clone, Copy, Structural)]
pub enum ArithmeticError {
    /// Division or remainder with a divisor of zero.
    DivisionByZero,
    /// A shift by as many bits as a word has, or more.
    ShiftTooFar,
}

/// The pure functions on words that the arithmetic and logic opcodes apply
/// to register values.
#[derive(Debug, PartialEq, Eq, Clone, Copy, Structural)]
pub enum Transform {
    Add,
    Sub,
    Mult,
    Div,
    Mod,
    Or,
    Xor,
    Nor,
    Nand,
    And,
    ShiftL,
    ShiftR,
    /// Takes one operand; the second is ignored.
    Not,
}

impl Transform {
    /// The result of the transform on two words. Sums, differences and
    /// products are taken modulo 2^16.
    pub open spec fn spec_apply(self, a: u16, b: u16) -> Result<u16, ArithmeticError> {
        match self {
            Transform::Add => Ok(((a + b) % 0x10000) as u16),
            Transform::Sub => Ok(((a - b) % 0x10000) as u16),
            Transform::Mult => Ok(((a * b) % 0x10000) as u16),
            Transform::Div => if b == 0 {
                Err(ArithmeticError::DivisionByZero)
            } else {
                Ok((a / b) as u16)
            },
            Transform::Mod => if b == 0 {
                Err(ArithmeticError::DivisionByZero)
            } else {
                Ok((a % b) as u16)
            },
            Transform::Or => Ok(a | b),
            Transform::Xor => Ok(a ^ b),
            Transform::Nor => Ok(!(a | b)),
            Transform::Nand => Ok(!(a & b)),
            Transform::And => Ok(a & b),
            Transform::ShiftL => if b >= 16 {
                Err(ArithmeticError::ShiftTooFar)
            } else {
                Ok(a << b)
            },
            Transform::ShiftR => if b >= 16 {
                Err(ArithmeticError::ShiftTooFar)
            } else {
                Ok(a >> b)
            },
            Transform::Not => Ok(!a),
        }
    }

    /// Applies the transform to two words.
    pub fn apply(self, a: u16, b: u16) -> (result: Result<u16, ArithmeticError>)
        ensures
            result == self.spec_apply(a, b),
    {
        match self {
            Transform::Add => Ok(a.wrapping_add(b)),
            Transform::Sub => Ok(a.wrapping_sub(b)),
            Transform::Mult => Ok(a.wrapping_mul(b)),
            Transform::Div => if b == 0 {
                Err(ArithmeticError::DivisionByZero)
            } else {
                Ok(a / b)
            },
            Transform::Mod => if b == 0 {
                Err(ArithmeticError::DivisionByZero)
            } else {
                Ok(a % b)
            },
            Transform::Or => Ok(a | b),
            Transform::Xor => Ok(a ^ b),
            Transform::Nor => Ok(!(a | b)),
            Transform::Nand => Ok(!(a & b)),
            Transform::And => Ok(a & b),
            Transform::ShiftL => if b >= 16 {
                Err(ArithmeticError::ShiftTooFar)
            } else {
                Ok(a << b)
            },
            Transform::ShiftR => if b >= 16 {
                Err(ArithmeticError::ShiftTooFar)
            } else {
                Ok(a >> b)
            },
            Transform::Not => Ok(!a),
        }
    }
}

} // verus!
