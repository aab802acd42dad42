//! The function-select encoding: the eight roles a pin can be given and the
//! three-bit code of each.

use vstd::prelude::*;

verus! {

/// The role a pin is given through its function-select field.
#[derive(Clone, Copy, Debug, PartialEq, Eq, Structural)]
pub enum Function {
    Input,
    Output,
    Alt0,
    Alt1,
    Alt2,
    Alt3,
    Alt4,
    Alt5,
}

impl Function {
    /// The three-bit code that selects this function.
    pub open spec fn code_spec(self) -> u32 {
        match self {
            Function::Input => 0b000,
            Function::Output => 0b001,
            Function::Alt0 => 0b100,
            Function::Alt1 => 0b101,
            Function::Alt2 => 0b110,
            Function::Alt3 => 0b111,
            Function::Alt4 => 0b011,
            Function::Alt5 => 0b010,
        }
    }

    /// The three-bit code that selects this function.
    pub fn code(self) -> (code: u32)
        ensures
            code == self.code_spec(),
            code < 8,
    {
        match self {
            Function::Input => 0b000,
            Function::Output => 0b001,
            Function::Alt0 => 0b100,
            Function::Alt1 => 0b101,
            Function::Alt2 => 0b110,
            Function::Alt3 => 0b111,
            Function::Alt4 => 0b011,
            Function::Alt5 => 0b010,
        }
    }
}

/// Every code fits in three bits, and no two functions share a code.
pub proof fn lemma_codes_distinct(a: Function, b: Function)
    ensures
        a.code_spec() < 8,
        a.code_spec() == b.code_spec() ==> a == b,
{
}

/// Every three-bit value is the code of a function.
pub proof fn lemma_codes_cover(code: u32)
    requires
        code < 8,
    ensures
        exists|function: Function| function.code_spec() == code,
{
    let function = if code == 0 {
        Function::Input
    } else if code == 1 {
        Function::Output
    } else if code == 2 {
        Function::Alt5
    } else if code == 3 {
        Function::Alt4
    } else if code == 4 {
        Function::Alt0
    } else if code == 5 {
        Function::Alt1
    } else if code == 6 {
        Function::Alt2
    } else {
        Function::Alt3
    };
    assert(function.code_spec() == code);
}

} // verus!
