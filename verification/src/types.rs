use vstd::prelude::*;

verus! {

/// One line of an opcode table: the name of a symbolic opcode and the numeric
/// code that programs store for it.
#[derive(Debug, Clone, PartialEq, Eq)]
pub struct OpcodeEntry {
    pub opcode: String,
    pub number: usize,
}

impl DeepView for OpcodeEntry {
    type V = (Seq<char>, usize);

    open spec fn deep_view(&self) -> (Seq<char>, usize) {
        (self.opcode@, self.number)
    }
}

} // verus!
