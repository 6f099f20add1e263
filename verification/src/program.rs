use vstd::prelude::*;
use crate::computer::{ClockError, Computer, ExecError, LoadError, MachineState};
use crate::opcodes::{
    all_known, codes_unambiguous, dictionary_of, is_first_unknown, lemma_round_trip, resolve,
    ConfigError, DictionaryView, LookupError, OpcodeDictionary, Opcodes,
};
use crate::types::OpcodeEntry;

verus! {

/// Why a program could not be put into a machine.
#[derive(Debug, Clone, PartialEq, Eq)]
pub enum ProgramError {
    /// The opcode table is not valid.
    Config(ConfigError),
    /// The opcode table gives no numeric code to an opcode of the program.
    Lookup(LookupError),
    /// The program does not fit the machine.
    Load(LoadError),
}

/// The word that the instruction store holds for a numeric code: its low 16
/// bits.
pub open spec fn code_word(code: usize) -> u16 {
    (code % 0x10000) as u16
}

/// Whether `i` is the first position of the program whose opcode has no
/// numeric code.
pub open spec fn is_first_missing(dictionary: DictionaryView, opcodes: Seq<Opcodes>, i: int) -> bool {
    &&& 0 <= i < opcodes.len()
    &&& !dictionary.to_int.contains_key(opcodes[i])
    &&& forall|j: int| 0 <= j < i ==> dictionary.to_int.contains_key(#[trigger] opcodes[j])
}

/// Whether every opcode of the program has a numeric code.
pub open spec fn all_encodable(dictionary: DictionaryView, opcodes: Seq<Opcodes>) -> bool {
    forall|i: int| 0 <= i < opcodes.len() ==> dictionary.to_int.contains_key(#[trigger] opcodes[i])
}

/// The words that the instruction store holds for a program.
pub open spec fn encoded(dictionary: DictionaryView, opcodes: Seq<Opcodes>) -> Seq<u16> {
    Seq::new(opcodes.len(), |i: int| code_word(dictionary.to_int[opcodes[i]]))
}

/// Turns a program of symbolic opcodes into the words of the instruction
/// store. Fails at the first opcode that has no numeric code, with that
/// opcode.
pub fn encode(dictionary: &OpcodeDictionary, opcodes: &[Opcodes]) -> (words: Result<
    Vec<u16>,
    LookupError,
>)
    ensures
        match words {
            Ok(words) => all_encodable(dictionary@, opcodes@) && words@ == encoded(
                dictionary@,
                opcodes@,
            ),
            Err(error) => exists|i: int|
                is_first_missing(dictionary@, opcodes@, i) && error == LookupError::UnknownOpcode(
                    opcodes@[i],
                ),
        },
{
    let mut words: Vec<u16> = Vec::new();
    let mut i: usize = 0;
    while i < opcodes.len()
        invariant
            i <= opcodes.len(),
            words.len() == i,
            forall|j: int| 0 <= j < i ==> dictionary@.to_int.contains_key(#[trigger] opcodes@[j]),
            forall|j: int| 0 <= j < i ==> words@[j] == code_word(dictionary@.to_int[opcodes@[j]]),
        decreases opcodes.len() - i,
    {
        match dictionary.opcode_to_int(opcodes[i]) {
            Ok(value) => {
                assert(value as u16 == code_word(value)) by (bit_vector);
                words.push(value as u16);
            },
            Err(error) => {
                assert(is_first_missing(dictionary@, opcodes@, i as int));
                return Err(error);
            },
        }
        i += 1;
    }
    assert(words@ =~= encoded(dictionary@, opcodes@));
    Ok(words)
}

/// The example program: it fills three registers and then adds and subtracts
/// in a loop until a subtraction gives zero, at which it jumps to `HALT`.
pub open spec fn fibonacci_opcodes() -> Seq<Opcodes> {
    seq![
        Opcodes::LOAD,
        Opcodes::LOAD,
        Opcodes::LOAD,
        Opcodes::ADD,
        Opcodes::ADD,
        Opcodes::SUB,
        Opcodes::JMPZ,
        Opcodes::JMP,
        Opcodes::NOP,
        Opcodes::NOP,
        Opcodes::HALT,
    ]
}

/// The operand words of the example program, three for each instruction.
pub open spec fn fibonacci_operands() -> Seq<u16> {
    seq![
        0u16, 0, 0,
        1, 1, 0,
        46368, 2, 0,
        0, 1, 0,
        0, 1, 1,
        0, 2, 0,
        10, 0, 0,
        3, 0, 0,
        0, 0, 0,
        0, 0, 0,
        0, 0, 0,
    ]
}

/// Writes the example program into a machine, encoded by the dictionary of
/// the given opcode table. Fails, and leaves the machine as it was, where
/// the table is not valid, where it lacks an opcode of the program, or where
/// the program does not fit the machine.
pub fn fibbonacci(computer: &mut Computer, opcode_entries: &Vec<OpcodeEntry>) -> (written: Result<
    (),
    ProgramError,
>)
    ensures
        match written {
            Ok(()) => {
                let dictionary = dictionary_of(resolve(opcode_entries.deep_view()));
                &&& all_known(opcode_entries.deep_view())
                &&& all_encodable(dictionary, fibonacci_opcodes())
                &&& old(computer)@.load(
                    encoded(dictionary, fibonacci_opcodes()),
                    fibonacci_operands(),
                ) == Ok::<MachineState, LoadError>(final(computer)@)
            },
            Err(ProgramError::Config(ConfigError::UnknownOpcode(name))) => {
                &&& exists|i: int|
                    is_first_unknown(opcode_entries.deep_view(), i) && name@
                        == opcode_entries.deep_view()[i].0
                &&& final(computer)@ == old(computer)@
            },
            Err(ProgramError::Lookup(error)) => {
                let dictionary = dictionary_of(resolve(opcode_entries.deep_view()));
                &&& all_known(opcode_entries.deep_view())
                &&& exists|i: int|
                    is_first_missing(dictionary, fibonacci_opcodes(), i) && error
                        == LookupError::UnknownOpcode(fibonacci_opcodes()[i])
                &&& final(computer)@ == old(computer)@
            },
            Err(ProgramError::Load(error)) => {
                let dictionary = dictionary_of(resolve(opcode_entries.deep_view()));
                &&& all_known(opcode_entries.deep_view())
                &&& all_encodable(dictionary, fibonacci_opcodes())
                &&& old(computer)@.load(
                    encoded(dictionary, fibonacci_opcodes()),
                    fibonacci_operands(),
                ) == Err::<MachineState, LoadError>(error)
                &&& final(computer)@ == old(computer)@
            },
        },
{
    let opcode_dictionary = match OpcodeDictionary::build(opcode_entries) {
        Ok(dictionary) => dictionary,
        Err(error) => {
            return Err(ProgramError::Config(error));
        },
    };
    let instructions_from_enum: [Opcodes; 11] = [
        Opcodes::LOAD,
        Opcodes::LOAD,
        Opcodes::LOAD,
        Opcodes::ADD,
        Opcodes::ADD,
        Opcodes::SUB,
        Opcodes::JMPZ,
        Opcodes::JMP,
        Opcodes::NOP,
        Opcodes::NOP,
        Opcodes::HALT,
    ];
    let parameters: [u16; 33] = [
        0, 0, 0,
        1, 1, 0,
        46368, 2, 0,
        0, 1, 0,
        0, 1, 1,
        0, 2, 0,
        10, 0, 0,
        3, 0, 0,
        0, 0, 0,
        0, 0, 0,
        0, 0, 0,
    ];
    assert(instructions_from_enum@ =~= fibonacci_opcodes());
    assert(parameters@ =~= fibonacci_operands());
    let instructions = match encode(&opcode_dictionary, instructions_from_enum.as_slice()) {
        Ok(instructions) => instructions,
        Err(error) => {
            return Err(ProgramError::Lookup(error));
        },
    };
    match computer.load_program(instructions.as_slice(), parameters.as_slice()) {
        Ok(()) => Ok(()),
        Err(error) => Err(ProgramError::Load(error)),
    }
}

/// Whether a machine holds the example program at the start of its stores,
/// in numeric opcodes that its dictionary decodes, and has the three
/// registers that the program uses.
pub open spec fn holds_fibonacci(state: MachineState) -> bool {
    &&& state.irom.len() >= fibonacci_opcodes().len()
    &&& state.rom.len() >= fibonacci_operands().len()
    &&& state.registers.len() >= 3
    &&& forall|slot: int|
        0 <= slot < fibonacci_opcodes().len() ==> state.dictionary.int_to_opcode(
            #[trigger] state.irom[slot] as usize,
        ) == Ok::<Opcodes, LookupError>(fibonacci_opcodes()[slot])
    &&& state.rom.take(fibonacci_operands().len() as int) == fibonacci_operands()
}

/// What holds between the cycles of a machine that runs the example program
/// from its first slot: the program counter is in the program, and it is at
/// `HALT` only with the first register and the last result at zero.
pub open spec fn fibonacci_invariant(state: MachineState) -> bool {
    &&& holds_fibonacci(state)
    &&& !state.jumped
    &&& state.program_counter <= 7 || state.program_counter == 10
    &&& state.program_counter == 6 ==> state.zero_flag == (state.registers[0] == 0)
    &&& state.program_counter == 10 ==> state.zero_flag && state.registers[0] == 0
}

/// A machine whose dictionary is that of a table which gives each opcode of
/// the example program a code of its own that fits a word, and into which
/// the program was loaded as that dictionary encodes it, holds the program.
pub proof fn lemma_loaded_program_decodes(
    pairs: Seq<(Opcodes, usize)>,
    before: MachineState,
    after: MachineState,
)
    requires
        codes_unambiguous(pairs),
        all_encodable(dictionary_of(pairs), fibonacci_opcodes()),
        forall|slot: int|
            0 <= slot < fibonacci_opcodes().len() ==> dictionary_of(
                pairs,
            ).to_int[#[trigger] fibonacci_opcodes()[slot]] < 0x10000,
        before.dictionary == dictionary_of(pairs),
        before.registers.len() >= 3,
        before.load(encoded(dictionary_of(pairs), fibonacci_opcodes()), fibonacci_operands()) == Ok::<
            MachineState,
            LoadError,
        >(after),
    ensures
        holds_fibonacci(after),
{
    let dictionary = dictionary_of(pairs);
    let words = encoded(dictionary, fibonacci_opcodes());
    assert forall|slot: int|
        0 <= slot < fibonacci_opcodes().len() implies after.dictionary.int_to_opcode(
        #[trigger] after.irom[slot] as usize,
    ) == Ok::<Opcodes, LookupError>(fibonacci_opcodes()[slot]) by {
        let opcode = fibonacci_opcodes()[slot];
        assert(after.irom[slot] == words[slot]);
        assert(dictionary.to_int.contains_key(opcode));
        assert(code_word(dictionary.to_int[opcode]) as usize == dictionary.to_int[opcode]);
        lemma_round_trip(pairs, opcode);
    }
    assert(after.rom.take(fibonacci_operands().len() as int) == fibonacci_operands());
}

/// A machine that holds the example program and is about to run its first
/// slot meets the invariant of the program.
pub proof fn lemma_fibonacci_starts(state: MachineState)
    requires
        holds_fibonacci(state),
        state.program_counter == 0,
        !state.jumped,
    ensures
        fibonacci_invariant(state),
{
}

/// Each cycle of the example program keeps its invariant, up to the cycle
/// that reaches `HALT`: that one fails, as `HALT` has no handler, and by the
/// invariant it finds the first register and the last result at zero.
pub proof fn lemma_fibonacci_step(state: MachineState)
    requires
        fibonacci_invariant(state),
    ensures
        state.program_counter != 10 ==> state.cycle() is Ok && fibonacci_invariant(
            state.cycle()->Ok_0,
        ),
        state.program_counter == 10 ==> state.cycle() == Err::<MachineState, ClockError>(
            ClockError::Execution(Opcodes::HALT, ExecError::Unimplemented(Opcodes::HALT)),
        ),
{
    let pc = state.program_counter as int;
    let operands = fibonacci_operands();
    let held = state.rom.take(operands.len() as int);
    assert(state.dictionary.int_to_opcode(state.irom[pc] as usize) == Ok::<Opcodes, LookupError>(
        fibonacci_opcodes()[pc],
    ));
    assert(state.fetch() == Ok::<Opcodes, ClockError>(fibonacci_opcodes()[pc]));
    assert(state.operands()[0] == held[3 * pc]);
    assert(state.operands()[1] == held[3 * pc + 1]);
    assert(state.operands()[2] == held[3 * pc + 2]);
    if pc != 10 {
        let next = state.cycle()->Ok_0;
        assert(state.cycle() is Ok);
        assert(next.irom == state.irom);
        assert(next.rom == state.rom);
        assert(next.dictionary == state.dictionary);
    }
}

} // verus!
