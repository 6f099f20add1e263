use vstd::prelude::*;
use vstd::slice::slice_subrange;
use crate::alu::{ArithmeticError, Transform};
use crate::opcodes::{
    all_known, dictionary_of, is_first_unknown, resolve, ConfigError, DictionaryView,
    OpcodeDictionary, Opcodes,
};
use crate::text::{decode_utf16_lossy, utf16_lossy};
use crate::types::OpcodeEntry;

verus! {

const K: usize = 1024;

/// How many words each memory region of a machine holds.
#[derive(Debug, Clone, Copy, PartialEq, Eq)]
pub struct ComputerConfig {
    /// The instruction store: one numeric opcode per instruction slot.
    pub irom: usize,
    /// The operand store: three words per instruction slot.
    pub rom: usize,
    pub ram: usize,
    pub registers: usize,
    pub data_stack: usize,
    pub function_stack: usize,
}

impl Default for ComputerConfig {
    fn default() -> (config: Self)
        ensures
            config == (ComputerConfig {
                irom: 8192,
                rom: 32768,
                ram: 8192,
                registers: 8,
                data_stack: 256,
                function_stack: 256,
            }),
    {
        Self {
            irom: 8 * K,
            rom: 32 * K,
            ram: 8 * K,
            registers: 8,
            data_stack: 256,
            function_stack: 256,
        }
    }
}

/// A memory region of the machine.
#[derive(Debug, PartialEq, Eq, Clone, Copy, Structural)]
pub enum Region {
    InstructionStore,
    OperandStore,
    Ram,
    Registers,
}

/// Why an instruction could not be executed.
#[derive(Debug, PartialEq, Eq, Clone, Copy, Structural)]
pub enum ExecError {
    /// The opcode is known but has no handler.
    Unimplemented(Opcodes),
    /// The transform has no result on the values of the source registers.
    Arithmetic(ArithmeticError),
    /// An operand addresses a word outside the region; holds the address,
    /// or for a range of words the address just behind its end.
    OutOfRange(Region, usize),
}

/// Why a cycle failed.
#[derive(Debug, PartialEq, Eq, Clone, Copy, Structural)]
pub enum ClockError {
    /// The program counter addresses an instruction slot whose opcode or
    /// operands lie outside the given store; holds the program counter.
    FetchOutOfRange(Region, usize),
    /// The fetched numeric opcode stands for no symbolic opcode; holds it.
    Decode(u16),
    /// The handler of the decoded opcode failed.
    Execution(Opcodes, ExecError),
}

/// Why a program could not be loaded.
#[derive(Debug, PartialEq, Eq, Clone, Copy, Structural)]
pub enum LoadError {
    /// There are more numeric opcodes than the instruction store has slots.
    InstructionsTooLong,
    /// There are more operand words than the operand store holds.
    OperandsTooLong,
}

/// The state of a machine.
#[verifier::ext_equal]
pub struct MachineState {
    pub irom: Seq<u16>,
    pub rom: Seq<u16>,
    pub ram: Seq<u16>,
    pub registers: Seq<u16>,
    pub data_stack: Seq<u16>,
    pub function_stack: Seq<u16>,
    pub program_counter: nat,
    pub data_stack_pointer: u16,
    pub function_stack_pointer: u16,
    /// Whether the last transform gave zero.
    pub zero_flag: bool,
    /// Whether a handler has set the program counter in the current cycle.
    pub jumped: bool,
    pub dictionary: DictionaryView,
}

impl MachineState {
    /// The state of a machine that was just built: every word is zero, the
    /// program counter is at the first slot and no flag is set.
    pub open spec fn initial(config: ComputerConfig, dictionary: DictionaryView) -> MachineState {
        MachineState {
            irom: Seq::new(config.irom as nat, |i: int| 0u16),
            rom: Seq::new(config.rom as nat, |i: int| 0u16),
            ram: Seq::new(config.ram as nat, |i: int| 0u16),
            registers: Seq::new(config.registers as nat, |i: int| 0u16),
            data_stack: Seq::new(config.data_stack as nat, |i: int| 0u16),
            function_stack: Seq::new(config.function_stack as nat, |i: int| 0u16),
            program_counter: 0,
            data_stack_pointer: 0,
            function_stack_pointer: 0,
            zero_flag: false,
            jumped: false,
            dictionary,
        }
    }

    /// The state with a program written over the start of the instruction
    /// store and of the operand store, or which of the two is too small.
    pub open spec fn load(self, instructions: Seq<u16>, operands: Seq<u16>) -> Result<
        MachineState,
        LoadError,
    > {
        if instructions.len() > self.irom.len() {
            Err(LoadError::InstructionsTooLong)
        } else if operands.len() > self.rom.len() {
            Err(LoadError::OperandsTooLong)
        } else {
            Ok(
                MachineState {
                    irom: instructions + self.irom.skip(instructions.len() as int),
                    rom: operands + self.rom.skip(operands.len() as int),
                    ..self
                },
            )
        }
    }

    /// The state with the branch-taken flag cleared.
    pub open spec fn clear_branch(self) -> MachineState {
        MachineState { jumped: false, ..self }
    }

    /// The state with a register set to a word, or the register as out of range.
    pub open spec fn set_register(self, register: u16, word: u16) -> Result<
        MachineState,
        ExecError,
    > {
        if register < self.registers.len() {
            Ok(MachineState { registers: self.registers.update(register as int, word), ..self })
        } else {
            Err(ExecError::OutOfRange(Region::Registers, register as usize))
        }
    }

    /// A register transform: the transform is applied to the values of the
    /// source registers (zero in place of a second one that is not given),
    /// the result goes to the destination register, and the zero flag tells
    /// whether the result is zero. The registers are checked in the order
    /// first source, second source, destination, and the sources before the
    /// transform is applied.
    pub open spec fn apply_operation(
        self,
        src1: u16,
        src2: Option<u16>,
        dst: u16,
        operation: Transform,
    ) -> Result<MachineState, ExecError> {
        if src1 >= self.registers.len() {
            Err(ExecError::OutOfRange(Region::Registers, src1 as usize))
        } else if src2 is Some && src2->0 >= self.registers.len() {
            Err(ExecError::OutOfRange(Region::Registers, src2->0 as usize))
        } else {
            let a = self.registers[src1 as int];
            let b = match src2 {
                Some(register) => self.registers[register as int],
                None => 0u16,
            };
            match operation.spec_apply(a, b) {
                Err(error) => Err(ExecError::Arithmetic(error)),
                Ok(result) => match self.set_register(dst, result) {
                    Err(error) => Err(error),
                    Ok(next) => Ok(MachineState { zero_flag: result == 0, ..next }),
                },
            }
        }
    }

    /// A transform of two registers: operands are first source, second
    /// source, destination.
    pub open spec fn math_operation(self, args: Seq<u16>, operation: Transform) -> Result<
        MachineState,
        ExecError,
    > {
        self.apply_operation(args[0], Some(args[1]), args[2], operation)
    }

    /// A transform of one register: operands are source, destination.
    pub open spec fn unary_operation(self, args: Seq<u16>, operation: Transform) -> Result<
        MachineState,
        ExecError,
    > {
        self.apply_operation(args[0], None, args[1], operation)
    }

    /// The state with the program counter set by a handler.
    pub open spec fn jump(self, target: u16) -> MachineState {
        MachineState { program_counter: target as nat, jumped: true, ..self }
    }

    /// The state after the handler of an opcode has run on three operand
    /// words, or why it could not run. The program counter is advanced by
    /// the cycle, not here.
    pub open spec fn execute(self, opcode: Opcodes, args: Seq<u16>) -> Result<
        MachineState,
        ExecError,
    > {
        match opcode {
            Opcodes::NOP => Ok(self),
            Opcodes::ADD => self.math_operation(args, Transform::Add),
            Opcodes::SUB => self.math_operation(args, Transform::Sub),
            Opcodes::MULT => self.math_operation(args, Transform::Mult),
            Opcodes::DIV => self.math_operation(args, Transform::Div),
            Opcodes::MOD => self.math_operation(args, Transform::Mod),
            Opcodes::OR => self.math_operation(args, Transform::Or),
            Opcodes::XOR => self.math_operation(args, Transform::Xor),
            Opcodes::NOR => self.math_operation(args, Transform::Nor),
            Opcodes::NAND => self.math_operation(args, Transform::Nand),
            Opcodes::AND => self.math_operation(args, Transform::And),
            Opcodes::SHIFTL => self.math_operation(args, Transform::ShiftL),
            Opcodes::SHIFTR => self.math_operation(args, Transform::ShiftR),
            Opcodes::NOT => self.unary_operation(args, Transform::Not),
            Opcodes::LOAD => self.set_register(args[1], args[0]),
            Opcodes::RSTORE => if args[0] >= self.registers.len() {
                Err(ExecError::OutOfRange(Region::Registers, args[0] as usize))
            } else if args[1] >= self.ram.len() {
                Err(ExecError::OutOfRange(Region::Ram, args[1] as usize))
            } else {
                Ok(
                    MachineState {
                        ram: self.ram.update(args[1] as int, self.registers[args[0] as int]),
                        ..self
                    },
                )
            },
            Opcodes::RCOPY => if args[0] >= self.ram.len() {
                Err(ExecError::OutOfRange(Region::Ram, args[0] as usize))
            } else {
                self.set_register(args[1], self.ram[args[0] as int])
            },
            Opcodes::ICOPY => if args[0] >= self.rom.len() {
                Err(ExecError::OutOfRange(Region::OperandStore, args[0] as usize))
            } else {
                self.set_register(args[1], self.rom[args[0] as int])
            },
            Opcodes::PRINT => if args[0] + args[1] > self.ram.len() {
                Err(ExecError::OutOfRange(Region::Ram, (args[0] + args[1]) as usize))
            } else {
                Ok(self)
            },
            Opcodes::JMP => Ok(self.jump(args[0])),
            Opcodes::JMPZ => if self.zero_flag {
                Ok(self.jump(args[0]))
            } else {
                Ok(self)
            },
            Opcodes::HPUSH | Opcodes::HPOP | Opcodes::CALLR | Opcodes::RETURN | Opcodes::HALT => Err(
                ExecError::Unimplemented(opcode),
            ),
        }
    }

    /// The text that the handler of an opcode emits when it runs on three
    /// operand words: that of a range of RAM for `PRINT`, none for any other.
    pub open spec fn emitted(self, opcode: Opcodes, args: Seq<u16>) -> Option<Seq<char>> {
        if opcode == Opcodes::PRINT && args[0] + args[1] <= self.ram.len() {
            Some(utf16_lossy(self.ram.subrange(args[0] as int, args[0] + args[1])))
        } else {
            None
        }
    }

    /// The opcode that the program counter addresses, or why it cannot be
    /// fetched or decoded.
    pub open spec fn fetch(self) -> Result<Opcodes, ClockError> {
        let pc = self.program_counter as int;
        if pc >= self.irom.len() {
            Err(ClockError::FetchOutOfRange(Region::InstructionStore, pc as usize))
        } else if !self.dictionary.from_int.contains_key(self.irom[pc] as usize) {
            Err(ClockError::Decode(self.irom[pc]))
        } else if 3 * pc + 3 > self.rom.len() {
            Err(ClockError::FetchOutOfRange(Region::OperandStore, pc as usize))
        } else {
            Ok(self.dictionary.from_int[self.irom[pc] as usize])
        }
    }

    /// The three operand words of the instruction slot that the program
    /// counter addresses.
    pub open spec fn operands(self) -> Seq<u16> {
        self.rom.subrange(3 * self.program_counter as int, 3 * self.program_counter as int + 3)
    }

    /// The state after one cycle, or why the cycle failed: the branch-taken
    /// flag is cleared, the instruction at the program counter is fetched,
    /// decoded and executed, and the program counter moves to the next slot
    /// unless the handler has set it.
    pub open spec fn cycle(self) -> Result<MachineState, ClockError> {
        match self.fetch() {
            Err(error) => Err(error),
            Ok(opcode) => match self.clear_branch().execute(opcode, self.operands()) {
                Err(cause) => Err(ClockError::Execution(opcode, cause)),
                Ok(next) => Ok(
                    if next.jumped {
                        next.clear_branch()
                    } else {
                        MachineState { program_counter: next.program_counter + 1, ..next }
                    },
                ),
            },
        }
    }

    /// The text that one cycle emits.
    pub open spec fn cycle_emitted(self) -> Option<Seq<char>> {
        match self.fetch() {
            Err(error) => None,
            Ok(opcode) => self.emitted(opcode, self.operands()),
        }
    }
}

/// `ADD` leaves in the destination register the sum of the two source
/// registers modulo 2^16 and in the zero flag whether that sum is zero, and
/// changes nothing else.
pub proof fn lemma_add_wraps(state: MachineState, a: u16, b: u16, src1: u16, src2: u16, dst: u16)
    requires
        src1 < state.registers.len(),
        src2 < state.registers.len(),
        dst < state.registers.len(),
        state.registers[src1 as int] == a,
        state.registers[src2 as int] == b,
    ensures
        state.execute(Opcodes::ADD, seq![src1, src2, dst]) is Ok,
        ({
            let next = state.execute(Opcodes::ADD, seq![src1, src2, dst])->Ok_0;
            let sum = ((a + b) % 0x10000) as u16;
            &&& next.registers[dst as int] == (a + b) % 0x10000
            &&& next.zero_flag == (next.registers[dst as int] == 0)
            &&& next == MachineState {
                registers: state.registers.update(dst as int, sum),
                zero_flag: sum == 0,
                ..state
            }
        }),
{
}

/// A conditional jump goes by the last transform. After a transform of two
/// registers whose result is zero, `JMPZ` sets the program counter to its
/// target, and so does a second `JMPZ` that follows it, as a jump leaves the
/// zero flag alone. After one whose result is not zero, `JMPZ` changes
/// nothing, the first time and the second.
pub proof fn lemma_jump_if_zero(
    state: MachineState,
    operation: Transform,
    args: Seq<u16>,
    target: u16,
)
    requires
        state.math_operation(args, operation) is Ok,
    ensures
        ({
            let after = state.math_operation(args, operation)->Ok_0;
            let result = after.registers[args[2] as int];
            let jump = seq![target, 0u16, 0u16];
            &&& after.zero_flag == (result == 0)
            &&& after.execute(Opcodes::JMPZ, jump) is Ok
            &&& after.execute(Opcodes::JMPZ, jump)->Ok_0.execute(Opcodes::JMPZ, jump) is Ok
            &&& result == 0 ==> {
                &&& after.execute(Opcodes::JMPZ, jump)->Ok_0 == after.jump(target)
                &&& after.execute(Opcodes::JMPZ, jump)->Ok_0.execute(Opcodes::JMPZ, jump)->Ok_0
                    == after.jump(target)
            }
            &&& result != 0 ==> {
                &&& after.execute(Opcodes::JMPZ, jump)->Ok_0 == after
                &&& after.execute(Opcodes::JMPZ, jump)->Ok_0.execute(Opcodes::JMPZ, jump)->Ok_0
                    == after
            }
        }),
{
}

/// A cycle that runs `JMPZ` moves the program counter to the target where
/// the zero flag is set and to the next slot where it is not, and changes
/// nothing else but to clear the branch-taken flag.
pub proof fn lemma_cycle_of_jump_if_zero(state: MachineState)
    requires
        state.fetch() == Ok::<Opcodes, ClockError>(Opcodes::JMPZ),
    ensures
        state.cycle() == Ok::<MachineState, ClockError>(
            MachineState {
                program_counter: if state.zero_flag {
                    state.operands()[0] as nat
                } else {
                    state.program_counter + 1
                },
                jumped: false,
                ..state
            },
        ),
{
}

/// A cycle whose program counter is past the end of the instruction store
/// fails at the fetch, with the program counter.
pub proof fn lemma_fetch_past_end(state: MachineState)
    requires
        state.program_counter >= state.irom.len(),
    ensures
        state.cycle() == Err::<MachineState, ClockError>(
            ClockError::FetchOutOfRange(Region::InstructionStore, state.program_counter as usize),
        ),
        state.cycle_emitted() is None,
{
}

/// The characters of a text that may be absent.
pub open spec fn text_view(text: Option<String>) -> Option<Seq<char>> {
    match text {
        Some(text) => Some(text@),
        None => None,
    }
}

/// A machine: its memory regions, its control registers and the dictionary
/// by which it decodes the numeric opcodes of its program.
pub struct Computer {
    /// The instruction store: one numeric opcode per instruction slot.
    pub irom: Vec<u16>,
    /// The operand store: three words per instruction slot.
    pub rom: Vec<u16>,
    ram: Vec<u16>,
    registers: Vec<u16>,
    data_stack: Vec<u16>,
    function_stack: Vec<u16>,
    program_counter: usize,
    data_stack_pointer: u16,
    function_stack_pointer: u16,
    alu_zero_flag: bool,
    jmped: bool,
    opcode_converter: OpcodeDictionary,
}

impl View for Computer {
    type V = MachineState;

    closed spec fn view(&self) -> MachineState {
        MachineState {
            irom: self.irom@,
            rom: self.rom@,
            ram: self.ram@,
            registers: self.registers@,
            data_stack: self.data_stack@,
            function_stack: self.function_stack@,
            program_counter: self.program_counter as nat,
            data_stack_pointer: self.data_stack_pointer,
            function_stack_pointer: self.function_stack_pointer,
            zero_flag: self.alu_zero_flag,
            jumped: self.jmped,
            dictionary: self.opcode_converter@,
        }
    }
}

/// A region of the given size with every word zero.
fn zeroed(size: usize) -> (words: Vec<u16>)
    ensures
        words@ == Seq::new(size as nat, |i: int| 0u16),
{
    let words = vec![0u16; size];
    assert(words@ =~= Seq::new(size as nat, |i: int| 0u16));
    words
}

/// Writes the words over the start of the region.
fn overwrite(region: &mut Vec<u16>, words: &[u16])
    requires
        words.len() <= old(region).len(),
    ensures
        final(region)@ == words@ + old(region)@.skip(words.len() as int),
{
    let mut i: usize = 0;
    while i < words.len()
        invariant
            i <= words.len() <= region.len(),
            region.len() == old(region).len(),
            forall|j: int| 0 <= j < i ==> region@[j] == words@[j],
            forall|j: int| i <= j < region.len() ==> region@[j] == old(region)@[j],
        decreases words.len() - i,
    {
        region[i] = words[i];
        i += 1;
    }
    assert(region@ =~= words@ + old(region)@.skip(words.len() as int));
}

impl Computer {
    /// Builds a machine with regions of the configured sizes, every word
    /// zero, and with the dictionary of the opcode table. Fails as the
    /// building of the dictionary fails.
    pub fn build(config: ComputerConfig, opcode_entries: &Vec<OpcodeEntry>) -> (built: Result<
        Self,
        ConfigError,
    >)
        ensures
            match built {
                Ok(computer) => {
                    &&& all_known(opcode_entries.deep_view())
                    &&& computer@ == MachineState::initial(
                        config,
                        dictionary_of(resolve(opcode_entries.deep_view())),
                    )
                },
                Err(ConfigError::UnknownOpcode(name)) => exists|i: int|
                    is_first_unknown(opcode_entries.deep_view(), i) && name@
                        == opcode_entries.deep_view()[i].0,
            },
    {
        let opcode_converter = match OpcodeDictionary::build(opcode_entries) {
            Ok(dictionary) => dictionary,
            Err(error) => {
                return Err(error);
            },
        };
        Ok(
            Self {
                irom: zeroed(config.irom),
                rom: zeroed(config.rom),
                ram: zeroed(config.ram),
                registers: zeroed(config.registers),
                data_stack: zeroed(config.data_stack),
                function_stack: zeroed(config.function_stack),
                program_counter: 0,
                data_stack_pointer: 0,
                function_stack_pointer: 0,
                alu_zero_flag: false,
                jmped: false,
                opcode_converter,
            },
        )
    }

    /// Writes a program over the start of the instruction store and of the
    /// operand store. Fails, and writes nothing, where either is too small.
    pub fn load_program(&mut self, instructions: &[u16], operands: &[u16]) -> (loaded: Result<
        (),
        LoadError,
    >)
        ensures
            match old(self)@.load(instructions@, operands@) {
                Ok(next) => loaded is Ok && final(self)@ == next,
                Err(error) => loaded == Err::<(), LoadError>(error) && final(self)@ == old(self)@,
            },
    {
        if instructions.len() > self.irom.len() {
            return Err(LoadError::InstructionsTooLong);
        }
        if operands.len() > self.rom.len() {
            return Err(LoadError::OperandsTooLong);
        }
        overwrite(&mut self.irom, instructions);
        overwrite(&mut self.rom, operands);
        Ok(())
    }

    /// The register file.
    pub fn registers(&self) -> (registers: &Vec<u16>)
        ensures
            registers@ == self@.registers,
    {
        &self.registers
    }

    /// The data memory.
    pub fn ram(&self) -> (ram: &Vec<u16>)
        ensures
            ram@ == self@.ram,
    {
        &self.ram
    }

    /// The instruction slot that the next cycle runs.
    pub fn program_counter(&self) -> (slot: usize)
        ensures
            slot == self@.program_counter,
    {
        self.program_counter
    }

    /// Whether the last transform gave zero.
    pub fn zero_flag(&self) -> (flag: bool)
        ensures
            flag == self@.zero_flag,
    {
        self.alu_zero_flag
    }

    /// Sets a register to a word, or fails with the register as out of range.
    fn set_register(&mut self, register: u16, word: u16) -> (set: Result<(), ExecError>)
        ensures
            match old(self)@.set_register(register, word) {
                Ok(next) => set is Ok && final(self)@ == next,
                Err(error) => set == Err::<(), ExecError>(error) && final(self)@ == old(self)@,
            },
    {
        if (register as usize) < self.registers.len() {
            self.registers[register as usize] = word;
            Ok(())
        } else {
            Err(ExecError::OutOfRange(Region::Registers, register as usize))
        }
    }

    /// Applies a transform to one or two registers and writes the result to
    /// a third. On failure the machine is left as it was.
    fn apply_operation(
        &mut self,
        src1: u16,
        src2: Option<u16>,
        dst: u16,
        operation: Transform,
    ) -> (applied: Result<(), ExecError>)
        ensures
            match old(self)@.apply_operation(src1, src2, dst, operation) {
                Ok(next) => applied is Ok && final(self)@ == next,
                Err(error) => applied == Err::<(), ExecError>(error) && final(self)@ == old(self)@,
            },
    {
        if src1 as usize >= self.registers.len() {
            return Err(ExecError::OutOfRange(Region::Registers, src1 as usize));
        }
        let register1: u16 = self.registers[src1 as usize];
        let register2: u16 = match src2 {
            Some(register) => {
                if register as usize >= self.registers.len() {
                    return Err(ExecError::OutOfRange(Region::Registers, register as usize));
                }
                self.registers[register as usize]
            },
            None => 0,
        };
        let result: u16 = match operation.apply(register1, register2) {
            Ok(result) => result,
            Err(error) => {
                return Err(ExecError::Arithmetic(error));
            },
        };
        match self.set_register(dst, result) {
            Ok(()) => {
                self.alu_zero_flag = result == 0;
                Ok(())
            },
            Err(error) => Err(error),
        }
    }

    /// A transform of two registers: operands are first source, second
    /// source, destination.
    fn math_operation(&mut self, args: [u16; 3], operation: Transform) -> (applied: Result<
        (),
        ExecError,
    >)
        ensures
            match old(self)@.math_operation(args@, operation) {
                Ok(next) => applied is Ok && final(self)@ == next,
                Err(error) => applied == Err::<(), ExecError>(error) && final(self)@ == old(self)@,
            },
    {
        self.apply_operation(args[0], Some(args[1]), args[2], operation)
    }

    /// A transform of one register: operands are source, destination.
    fn unary_operation(&mut self, args: [u16; 3], operation: Transform) -> (applied: Result<
        (),
        ExecError,
    >)
        ensures
            match old(self)@.unary_operation(args@, operation) {
                Ok(next) => applied is Ok && final(self)@ == next,
                Err(error) => applied == Err::<(), ExecError>(error) && final(self)@ == old(self)@,
            },
    {
        self.apply_operation(args[0], None, args[1], operation)
    }

    /// Runs the handler of an opcode on three operand words and returns the
    /// text that it emits, if any. The program counter moves only where the
    /// handler is a jump that is taken. On failure the machine is left as it
    /// was.
    pub fn execute_opcode(&mut self, opcode: Opcodes, args: [u16; 3]) -> (executed: Result<
        Option<String>,
        ExecError,
    >)
        ensures
            match old(self)@.execute(opcode, args@) {
                Ok(next) => {
                    &&& executed is Ok
                    &&& text_view(executed->Ok_0) == old(self)@.emitted(opcode, args@)
                    &&& final(self)@ == next
                },
                Err(error) => {
                    &&& executed == Err::<Option<String>, ExecError>(error)
                    &&& final(self)@ == old(self)@
                },
            },
    {
        let done = match opcode {
            Opcodes::NOP => Ok(()),
            Opcodes::ADD => self.math_operation(args, Transform::Add),
            Opcodes::SUB => self.math_operation(args, Transform::Sub),
            Opcodes::MULT => self.math_operation(args, Transform::Mult),
            Opcodes::DIV => self.math_operation(args, Transform::Div),
            Opcodes::MOD => self.math_operation(args, Transform::Mod),
            Opcodes::OR => self.math_operation(args, Transform::Or),
            Opcodes::XOR => self.math_operation(args, Transform::Xor),
            Opcodes::NOR => self.math_operation(args, Transform::Nor),
            Opcodes::NAND => self.math_operation(args, Transform::Nand),
            Opcodes::AND => self.math_operation(args, Transform::And),
            Opcodes::SHIFTL => self.math_operation(args, Transform::ShiftL),
            Opcodes::SHIFTR => self.math_operation(args, Transform::ShiftR),
            Opcodes::NOT => self.unary_operation(args, Transform::Not),
            Opcodes::LOAD => self.set_register(args[1], args[0]),
            Opcodes::RSTORE => {
                if args[0] as usize >= self.registers.len() {
                    Err(ExecError::OutOfRange(Region::Registers, args[0] as usize))
                } else if args[1] as usize >= self.ram.len() {
                    Err(ExecError::OutOfRange(Region::Ram, args[1] as usize))
                } else {
                    self.ram[args[1] as usize] = self.registers[args[0] as usize];
                    Ok(())
                }
            },
            Opcodes::RCOPY => {
                if args[0] as usize >= self.ram.len() {
                    Err(ExecError::OutOfRange(Region::Ram, args[0] as usize))
                } else {
                    let word: u16 = self.ram[args[0] as usize];
                    self.set_register(args[1], word)
                }
            },
            Opcodes::ICOPY => {
                if args[0] as usize >= self.rom.len() {
                    Err(ExecError::OutOfRange(Region::OperandStore, args[0] as usize))
                } else {
                    let word: u16 = self.rom[args[0] as usize];
                    self.set_register(args[1], word)
                }
            },
            Opcodes::PRINT => {
                let address: usize = args[0] as usize;
                let length: usize = args[1] as usize;
                if address + length > self.ram.len() {
                    Err(ExecError::OutOfRange(Region::Ram, address + length))
                } else {
                    let words = slice_subrange(self.ram.as_slice(), address, address + length);
                    return Ok(Some(decode_utf16_lossy(words)));
                }
            },
            Opcodes::JMP => {
                self.program_counter = args[0] as usize;
                self.jmped = true;
                Ok(())
            },
            Opcodes::JMPZ => {
                if self.alu_zero_flag {
                    self.program_counter = args[0] as usize;
                    self.jmped = true;
                }
                Ok(())
            },
            Opcodes::HPUSH | Opcodes::HPOP | Opcodes::CALLR | Opcodes::RETURN | Opcodes::HALT => Err(
                ExecError::Unimplemented(opcode),
            ),
        };
        match done {
            Ok(()) => Ok(None),
            Err(error) => Err(error),
        }
    }

    /// Runs one cycle: clears the branch-taken flag, fetches and decodes the
    /// instruction at the program counter, runs its handler, and moves the
    /// program counter to the next slot unless the handler has set it.
    /// Returns the text that the instruction emits, if any. On failure the
    /// machine is left as it was, but for the cleared flag.
    pub fn clock(&mut self) -> (ticked: Result<Option<String>, ClockError>)
        ensures
            match old(self)@.cycle() {
                Ok(next) => {
                    &&& ticked is Ok
                    &&& text_view(ticked->Ok_0) == old(self)@.cycle_emitted()
                    &&& final(self)@ == next
                },
                Err(error) => {
                    &&& ticked == Err::<Option<String>, ClockError>(error)
                    &&& final(self)@ == old(self)@.clear_branch()
                },
            },
            !final(self)@.jumped,
            old(self)@.program_counter >= old(self)@.irom.len() ==> {
                &&& ticked == Err::<Option<String>, ClockError>(
                    ClockError::FetchOutOfRange(
                        Region::InstructionStore,
                        old(self)@.program_counter as usize,
                    ),
                )
                &&& !old(self)@.jumped ==> final(self)@ == old(self)@
            },
    {
        self.jmped = false;
        let address: usize = self.program_counter;
        if address >= self.irom.len() {
            return Err(ClockError::FetchOutOfRange(Region::InstructionStore, address));
        }
        let code: u16 = self.irom[address];
        let opcode = match self.opcode_converter.int_to_opcode(code as usize) {
            Ok(opcode) => opcode,
            Err(_) => {
                return Err(ClockError::Decode(code));
            },
        };
        if address >= self.rom.len() / 3 {
            return Err(ClockError::FetchOutOfRange(Region::OperandStore, address));
        }
        let args: [u16; 3] = [
            self.rom[address * 3],
            self.rom[address * 3 + 1],
            self.rom[address * 3 + 2],
        ];
        assert(args@ == old(self)@.operands());
        let emitted = match self.execute_opcode(opcode, args) {
            Ok(emitted) => emitted,
            Err(cause) => {
                return Err(ClockError::Execution(opcode, cause));
            },
        };
        if !self.jmped {
            self.program_counter += 1;
        }
        self.jmped = false;
        Ok(emitted)
    }
}

} // verus!
