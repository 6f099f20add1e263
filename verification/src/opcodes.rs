use std::collections::HashMap;
use vstd::prelude::*;
use crate::text::str_eq;
use crate::types::OpcodeEntry;

verus! {

/// How many symbolic opcodes there are.
pub const OPCODE_COUNT: u8 = 26;

/// The symbolic opcodes of the machine. The set is closed; only the numeric
/// code of each opcode is configurable.
#[derive(Debug, PartialEq, Eq, Hash, Clone, Copy, Structural)]
pub enum Opcodes {
    NOP,
    ADD,
    SUB,
    MULT,
    DIV,
    MOD,
    OR,
    XOR,
    NOR,
    NAND,
    AND,
    NOT,
    SHIFTL,
    SHIFTR,
    /// Loads the first operand (a literal) into the register named by the second.
    LOAD,
    HPUSH,
    HPOP,
    CALLR,
    RETURN,
    /// Copies a register to a RAM address.
    RSTORE,
    /// Copies a RAM address to a register.
    RCOPY,
    /// Copies a word of the operand store to a register.
    ICOPY,
    JMP,
    /// Jumps if the zero flag is set.
    JMPZ,
    /// Emits a range of RAM as text.
    PRINT,
    HALT,
}

impl Opcodes {
    /// The name under which an opcode table refers to this opcode.
    pub open spec fn spec_name(self) -> Seq<char> {
        match self {
            Opcodes::NOP => "NOP"@,
            Opcodes::ADD => "ADD"@,
            Opcodes::SUB => "SUB"@,
            Opcodes::MULT => "MULT"@,
            Opcodes::DIV => "DIV"@,
            Opcodes::MOD => "MOD"@,
            Opcodes::OR => "OR"@,
            Opcodes::XOR => "XOR"@,
            Opcodes::NOR => "NOR"@,
            Opcodes::NAND => "NAND"@,
            Opcodes::AND => "AND"@,
            Opcodes::NOT => "NOT"@,
            Opcodes::SHIFTL => "SHIFTL"@,
            Opcodes::SHIFTR => "SHIFTR"@,
            Opcodes::LOAD => "LOAD"@,
            Opcodes::HPUSH => "HPUSH"@,
            Opcodes::HPOP => "HPOP"@,
            Opcodes::CALLR => "CALLR"@,
            Opcodes::RETURN => "RETURN"@,
            Opcodes::RSTORE => "RSTORE"@,
            Opcodes::RCOPY => "RCOPY"@,
            Opcodes::ICOPY => "ICOPY"@,
            Opcodes::JMP => "JMP"@,
            Opcodes::JMPZ => "JMPZ"@,
            Opcodes::PRINT => "PRINT"@,
            Opcodes::HALT => "HALT"@,
        }
    }

    /// The opcode that a name stands for, if it names one.
    pub open spec fn spec_from_name(name: Seq<char>) -> Option<Opcodes> {
        if exists|op: Opcodes| op.spec_name() == name {
            Some(choose|op: Opcodes| op.spec_name() == name)
        } else {
            None
        }
    }

    /// The position of this opcode in the declaration order, from 0.
    pub open spec fn spec_index(self) -> u8 {
        match self {
            Opcodes::NOP => 0,
            Opcodes::ADD => 1,
            Opcodes::SUB => 2,
            Opcodes::MULT => 3,
            Opcodes::DIV => 4,
            Opcodes::MOD => 5,
            Opcodes::OR => 6,
            Opcodes::XOR => 7,
            Opcodes::NOR => 8,
            Opcodes::NAND => 9,
            Opcodes::AND => 10,
            Opcodes::NOT => 11,
            Opcodes::SHIFTL => 12,
            Opcodes::SHIFTR => 13,
            Opcodes::LOAD => 14,
            Opcodes::HPUSH => 15,
            Opcodes::HPOP => 16,
            Opcodes::CALLR => 17,
            Opcodes::RETURN => 18,
            Opcodes::RSTORE => 19,
            Opcodes::RCOPY => 20,
            Opcodes::ICOPY => 21,
            Opcodes::JMP => 22,
            Opcodes::JMPZ => 23,
            Opcodes::PRINT => 24,
            Opcodes::HALT => 25,
        }
    }

    /// No two opcodes share a name.
    pub proof fn lemma_names_distinct(a: Opcodes, b: Opcodes)
        requires
            a.spec_name() == b.spec_name(),
        ensures
            a == b,
    {
        reveal_strlit("NOP");
        reveal_strlit("ADD");
        reveal_strlit("SUB");
        reveal_strlit("MULT");
        reveal_strlit("DIV");
        reveal_strlit("MOD");
        reveal_strlit("OR");
        reveal_strlit("XOR");
        reveal_strlit("NOR");
        reveal_strlit("NAND");
        reveal_strlit("AND");
        reveal_strlit("NOT");
        reveal_strlit("SHIFTL");
        reveal_strlit("SHIFTR");
        reveal_strlit("LOAD");
        reveal_strlit("HPUSH");
        reveal_strlit("HPOP");
        reveal_strlit("CALLR");
        reveal_strlit("RETURN");
        reveal_strlit("RSTORE");
        reveal_strlit("RCOPY");
        reveal_strlit("ICOPY");
        reveal_strlit("JMP");
        reveal_strlit("JMPZ");
        reveal_strlit("PRINT");
        reveal_strlit("HALT");
        let s = a.spec_name();
        let t = b.spec_name();
        assert(s.len() == t.len());
        assert(s.len() >= 2);
        assert(s[0] == t[0]);
        assert(s[1] == t[1]);
        assert(s.len() > 2 ==> s[2] == t[2]);
        assert(s.len() > 3 ==> s[3] == t[3]);
        assert(s.len() > 4 ==> s[4] == t[4]);
        assert(s.len() > 5 ==> s[5] == t[5]);
    }

    /// Reading an opcode's own name gives that opcode back.
    pub proof fn lemma_from_name_of_name(op: Opcodes)
        ensures
            Opcodes::spec_from_name(op.spec_name()) == Some(op),
    {
        let found = choose|other: Opcodes| other.spec_name() == op.spec_name();
        Opcodes::lemma_names_distinct(found, op);
    }

    /// The name under which an opcode table refers to this opcode.
    pub fn name(&self) -> (name: &'static str)
        ensures
            name@ == self.spec_name(),
    {
        match self {
            Opcodes::NOP => "NOP",
            Opcodes::ADD => "ADD",
            Opcodes::SUB => "SUB",
            Opcodes::MULT => "MULT",
            Opcodes::DIV => "DIV",
            Opcodes::MOD => "MOD",
            Opcodes::OR => "OR",
            Opcodes::XOR => "XOR",
            Opcodes::NOR => "NOR",
            Opcodes::NAND => "NAND",
            Opcodes::AND => "AND",
            Opcodes::NOT => "NOT",
            Opcodes::SHIFTL => "SHIFTL",
            Opcodes::SHIFTR => "SHIFTR",
            Opcodes::LOAD => "LOAD",
            Opcodes::HPUSH => "HPUSH",
            Opcodes::HPOP => "HPOP",
            Opcodes::CALLR => "CALLR",
            Opcodes::RETURN => "RETURN",
            Opcodes::RSTORE => "RSTORE",
            Opcodes::RCOPY => "RCOPY",
            Opcodes::ICOPY => "ICOPY",
            Opcodes::JMP => "JMP",
            Opcodes::JMPZ => "JMPZ",
            Opcodes::PRINT => "PRINT",
            Opcodes::HALT => "HALT",
        }
    }

    /// The position of this opcode in the declaration order, from 0.
    pub fn index(self) -> (index: u8)
        ensures
            index == self.spec_index(),
            index < OPCODE_COUNT,
    {
        match self {
            Opcodes::NOP => 0,
            Opcodes::ADD => 1,
            Opcodes::SUB => 2,
            Opcodes::MULT => 3,
            Opcodes::DIV => 4,
            Opcodes::MOD => 5,
            Opcodes::OR => 6,
            Opcodes::XOR => 7,
            Opcodes::NOR => 8,
            Opcodes::NAND => 9,
            Opcodes::AND => 10,
            Opcodes::NOT => 11,
            Opcodes::SHIFTL => 12,
            Opcodes::SHIFTR => 13,
            Opcodes::LOAD => 14,
            Opcodes::HPUSH => 15,
            Opcodes::HPOP => 16,
            Opcodes::CALLR => 17,
            Opcodes::RETURN => 18,
            Opcodes::RSTORE => 19,
            Opcodes::RCOPY => 20,
            Opcodes::ICOPY => 21,
            Opcodes::JMP => 22,
            Opcodes::JMPZ => 23,
            Opcodes::PRINT => 24,
            Opcodes::HALT => 25,
        }
    }

    /// The opcode at a position of the declaration order, if there is one.
    pub fn from_index(index: u8) -> (found: Option<Opcodes>)
        ensures
            match found {
                Some(op) => op.spec_index() == index,
                None => index >= OPCODE_COUNT,
            },
    {
        match index {
            0 => Some(Opcodes::NOP),
            1 => Some(Opcodes::ADD),
            2 => Some(Opcodes::SUB),
            3 => Some(Opcodes::MULT),
            4 => Some(Opcodes::DIV),
            5 => Some(Opcodes::MOD),
            6 => Some(Opcodes::OR),
            7 => Some(Opcodes::XOR),
            8 => Some(Opcodes::NOR),
            9 => Some(Opcodes::NAND),
            10 => Some(Opcodes::AND),
            11 => Some(Opcodes::NOT),
            12 => Some(Opcodes::SHIFTL),
            13 => Some(Opcodes::SHIFTR),
            14 => Some(Opcodes::LOAD),
            15 => Some(Opcodes::HPUSH),
            16 => Some(Opcodes::HPOP),
            17 => Some(Opcodes::CALLR),
            18 => Some(Opcodes::RETURN),
            19 => Some(Opcodes::RSTORE),
            20 => Some(Opcodes::RCOPY),
            21 => Some(Opcodes::ICOPY),
            22 => Some(Opcodes::JMP),
            23 => Some(Opcodes::JMPZ),
            24 => Some(Opcodes::PRINT),
            25 => Some(Opcodes::HALT),
            _ => None,
        }
    }

    /// The opcode that a name stands for, if it names one. Names are matched
    /// exactly, letter case included.
    pub fn from_name(name: &str) -> (found: Option<Opcodes>)
        ensures
            found == Opcodes::spec_from_name(name@),
    {
        let mut i: u8 = 0;
        while i < OPCODE_COUNT
            invariant
                i <= OPCODE_COUNT,
                forall|op: Opcodes| op.spec_index() < i ==> op.spec_name() != name@,
            decreases OPCODE_COUNT - i,
        {
            match Opcodes::from_index(i) {
                Some(op) => {
                    if str_eq(name, op.name()) {
                        proof {
                            Opcodes::lemma_from_name_of_name(op);
                        }
                        return Some(op);
                    }
                },
                None => {},
            }
            i += 1;
        }
        None
    }
}

/// Why a dictionary could not be built from an opcode table.
#[derive(Debug, Clone, PartialEq, Eq)]
pub enum ConfigError {
    /// An entry's name is that of no symbolic opcode; holds the name.
    UnknownOpcode(String),
}

/// A key for which a dictionary has no entry.
#[derive(Debug, PartialEq, Eq, Clone, Copy, Structural)]
pub enum LookupError {
    /// The table gave this opcode no numeric code.
    UnknownOpcode(Opcodes),
    /// The table gave this numeric code to no opcode.
    UnknownCode(usize),
}

/// The two mappings of a dictionary.
#[verifier::ext_equal]
pub struct DictionaryView {
    pub to_int: Map<Opcodes, usize>,
    pub from_int: Map<usize, Opcodes>,
}

impl DictionaryView {
    /// The numeric code of an opcode, or the opcode as the missing key.
    pub open spec fn opcode_to_int(self, opcode: Opcodes) -> Result<usize, LookupError> {
        if self.to_int.contains_key(opcode) {
            Ok(self.to_int[opcode])
        } else {
            Err(LookupError::UnknownOpcode(opcode))
        }
    }

    /// The opcode that a numeric code stands for, or the code as the missing key.
    pub open spec fn int_to_opcode(self, value: usize) -> Result<Opcodes, LookupError> {
        if self.from_int.contains_key(value) {
            Ok(self.from_int[value])
        } else {
            Err(LookupError::UnknownCode(value))
        }
    }
}

/// Whether every entry's name is that of a symbolic opcode.
pub open spec fn all_known(entries: Seq<(Seq<char>, usize)>) -> bool {
    forall|i: int| 0 <= i < entries.len() ==> Opcodes::spec_from_name(#[trigger] entries[i].0) is Some
}

/// The entries with each name replaced by the opcode it stands for.
pub open spec fn resolve(entries: Seq<(Seq<char>, usize)>) -> Seq<(Opcodes, usize)> {
    Seq::new(entries.len(), |i: int| (Opcodes::spec_from_name(entries[i].0).unwrap(), entries[i].1))
}

/// The dictionary that results from entering the pairs one after the other:
/// where an opcode or a numeric code occurs more than once, the last pair
/// that holds it decides.
pub open spec fn dictionary_of(pairs: Seq<(Opcodes, usize)>) -> DictionaryView
    decreases pairs.len(),
{
    if pairs.len() == 0 {
        DictionaryView { to_int: Map::empty(), from_int: Map::empty() }
    } else {
        let before = dictionary_of(pairs.drop_last());
        let (opcode, number) = pairs.last();
        DictionaryView {
            to_int: before.to_int.insert(opcode, number),
            from_int: before.from_int.insert(number, opcode),
        }
    }
}

/// Whether no numeric code is given to two different opcodes.
pub open spec fn codes_unambiguous(pairs: Seq<(Opcodes, usize)>) -> bool {
    forall|i: int, j: int|
        0 <= i < pairs.len() && 0 <= j < pairs.len() && #[trigger] pairs[i].1 == #[trigger] pairs[j].1
            ==> pairs[i].0 == pairs[j].0
}

/// Every pair is found in both mappings, and everything in either mapping
/// was entered by some pair.
pub proof fn lemma_dictionary_holds_its_pairs(pairs: Seq<(Opcodes, usize)>)
    ensures
        forall|i: int|
            0 <= i < pairs.len() ==> dictionary_of(pairs).to_int.contains_key(
                (#[trigger] pairs[i]).0,
            ) && dictionary_of(pairs).from_int.contains_key(pairs[i].1),
        forall|opcode: Opcodes| #[trigger]
            dictionary_of(pairs).to_int.contains_key(opcode) ==> pairs.contains(
                (opcode, dictionary_of(pairs).to_int[opcode]),
            ),
        forall|number: usize| #[trigger]
            dictionary_of(pairs).from_int.contains_key(number) ==> pairs.contains(
                (dictionary_of(pairs).from_int[number], number),
            ),
    decreases pairs.len(),
{
    if pairs.len() > 0 {
        let front = pairs.drop_last();
        lemma_dictionary_holds_its_pairs(front);
        let now = dictionary_of(pairs);
        let before = dictionary_of(front);
        let last = pairs.len() - 1;
        assert forall|i: int| 0 <= i < pairs.len() implies now.to_int.contains_key(
            (#[trigger] pairs[i]).0,
        ) && now.from_int.contains_key(pairs[i].1) by {
            if i < last {
                assert(front[i] == pairs[i]);
            }
        }
        assert forall|opcode: Opcodes| #[trigger] now.to_int.contains_key(opcode) implies pairs.contains(
            (opcode, now.to_int[opcode]),
        ) by {
            if opcode == pairs.last().0 {
                assert(pairs[last] == (opcode, now.to_int[opcode]));
            } else {
                let i = front.index_of((opcode, before.to_int[opcode]));
                assert(pairs[i] == front[i]);
            }
        }
        assert forall|number: usize| #[trigger] now.from_int.contains_key(number) implies pairs.contains(
            (now.from_int[number], number),
        ) by {
            if number == pairs.last().1 {
                assert(pairs[last] == (now.from_int[number], number));
            } else {
                let i = front.index_of((before.from_int[number], number));
                assert(pairs[i] == front[i]);
            }
        }
    }
}

/// Where an opcode or a numeric code occurs in several pairs, the last of
/// them decides what the dictionary holds for it.
pub proof fn lemma_last_pair_decides(pairs: Seq<(Opcodes, usize)>, i: int)
    requires
        0 <= i < pairs.len(),
    ensures
        (forall|j: int| i < j < pairs.len() ==> (#[trigger] pairs[j]).0 != pairs[i].0)
            ==> dictionary_of(pairs).opcode_to_int(pairs[i].0) == Ok::<usize, LookupError>(
            pairs[i].1,
        ),
        (forall|j: int| i < j < pairs.len() ==> (#[trigger] pairs[j]).1 != pairs[i].1)
            ==> dictionary_of(pairs).int_to_opcode(pairs[i].1) == Ok::<Opcodes, LookupError>(
            pairs[i].0,
        ),
    decreases pairs.len(),
{
    let last = pairs.len() - 1;
    if i < last {
        let front = pairs.drop_last();
        lemma_last_pair_decides(front, i);
        assert(front[i] == pairs[i]);
        if forall|j: int| i < j < pairs.len() ==> (#[trigger] pairs[j]).0 != pairs[i].0 {
            assert(pairs[last].0 != pairs[i].0);
            assert forall|j: int| i < j < front.len() implies (#[trigger] front[j]).0
                != front[i].0 by {
                assert(front[j] == pairs[j]);
            }
        }
        if forall|j: int| i < j < pairs.len() ==> (#[trigger] pairs[j]).1 != pairs[i].1 {
            assert(pairs[last].1 != pairs[i].1);
            assert forall|j: int| i < j < front.len() implies (#[trigger] front[j]).1
                != front[i].1 by {
                assert(front[j] == pairs[j]);
            }
        }
    }
}

/// Encoding an opcode and decoding the result gives the opcode back: this
/// holds of every opcode that the table has an entry for, as long as the
/// table gives no numeric code to two different opcodes.
pub proof fn lemma_round_trip(pairs: Seq<(Opcodes, usize)>, opcode: Opcodes)
    requires
        codes_unambiguous(pairs),
        dictionary_of(pairs).opcode_to_int(opcode) is Ok,
    ensures
        dictionary_of(pairs).int_to_opcode(dictionary_of(pairs).opcode_to_int(opcode)->Ok_0) == Ok::<
            Opcodes,
            LookupError,
        >(opcode),
{
    lemma_dictionary_holds_its_pairs(pairs);
    let dictionary = dictionary_of(pairs);
    let number = dictionary.to_int[opcode];
    let i = pairs.index_of((opcode, number));
    assert(pairs[i].1 == number);
    let j = pairs.index_of((dictionary.from_int[number], number));
    assert(pairs[j].1 == pairs[i].1);
}

/// Whether entry `i` is the first whose name is that of no symbolic opcode.
pub open spec fn is_first_unknown(entries: Seq<(Seq<char>, usize)>, i: int) -> bool {
    &&& 0 <= i < entries.len()
    &&& Opcodes::spec_from_name(entries[i].0) is None
    &&& all_known(entries.take(i))
}

/// The mapping between symbolic opcodes and the numeric codes that a
/// program stores for them, in both directions.
pub struct OpcodeDictionary {
    to_int: HashMap<u8, usize>,
    from_int: HashMap<usize, Opcodes>,
}

/// A map keyed by an opcode's position, read as a map keyed by the opcode.
pub closed spec fn by_opcode(by_index: Map<u8, usize>) -> Map<Opcodes, usize> {
    Map::new(
        |opcode: Opcodes| by_index.contains_key(opcode.spec_index()),
        |opcode: Opcodes| by_index[opcode.spec_index()],
    )
}

impl View for OpcodeDictionary {
    type V = DictionaryView;

    closed spec fn view(&self) -> DictionaryView {
        DictionaryView { to_int: by_opcode(self.to_int@), from_int: self.from_int@ }
    }
}

impl OpcodeDictionary {
    /// Builds the dictionary of an opcode table by entering its entries in
    /// order. Fails at the first entry whose name is that of no symbolic
    /// opcode, with that name. Numeric codes are taken as they are.
    pub fn build(entries: &Vec<OpcodeEntry>) -> (built: Result<OpcodeDictionary, ConfigError>)
        ensures
            match built {
                Ok(dictionary) => {
                    &&& all_known(entries.deep_view())
                    &&& dictionary@ == dictionary_of(resolve(entries.deep_view()))
                },
                Err(ConfigError::UnknownOpcode(name)) => exists|i: int|
                    is_first_unknown(entries.deep_view(), i) && name@ == entries.deep_view()[i].0,
            },
    {
        let mut to_int: HashMap<u8, usize> = HashMap::new();
        let mut from_int: HashMap<usize, Opcodes> = HashMap::new();
        let ghost table = entries.deep_view();
        let mut i: usize = 0;
        while i < entries.len()
            invariant
                i <= entries.len(),
                table == entries.deep_view(),
                all_known(table.take(i as int)),
                by_opcode(to_int@) == dictionary_of(resolve(table.take(i as int))).to_int,
                from_int@ == dictionary_of(resolve(table.take(i as int))).from_int,
            decreases entries.len() - i,
        {
            let entry = &entries[i];
            assert(table[i as int] == (entry.opcode@, entry.number));
            match Opcodes::from_name(entry.opcode.as_str()) {
                Some(opcode) => {
                    let number: usize = entry.number;
                    let ghost before = to_int@;
                    to_int.insert(opcode.index(), number);
                    from_int.insert(number, opcode);
                    proof {
                        let done = table.take(i as int);
                        let next = table.take(i + 1);
                        assert(next.drop_last() == done);
                        assert(resolve(next).drop_last() == resolve(done));
                        assert(resolve(next).last() == (opcode, number));
                        assert(by_opcode(to_int@) == by_opcode(before).insert(opcode, number));
                    }
                },
                None => {
                    assert(is_first_unknown(table, i as int));
                    return Err(ConfigError::UnknownOpcode(entry.opcode.clone()));
                },
            }
            i += 1;
        }
        assert(table.take(i as int) == table);
        Ok(OpcodeDictionary { to_int, from_int })
    }

    /// The numeric code of an opcode; fails with the opcode where the table
    /// had no entry for it.
    pub fn opcode_to_int(&self, opcode: Opcodes) -> (code: Result<usize, LookupError>)
        ensures
            code == self@.opcode_to_int(opcode),
    {
        match self.to_int.get(&opcode.index()) {
            Some(number) => Ok(*number),
            None => Err(LookupError::UnknownOpcode(opcode)),
        }
    }

    /// The opcode that a numeric code stands for; fails with the code where
    /// the table gave it to no opcode.
    pub fn int_to_opcode(&self, value: usize) -> (opcode: Result<Opcodes, LookupError>)
        ensures
            opcode == self@.int_to_opcode(value),
    {
        match self.from_int.get(&value) {
            Some(opcode) => Ok(*opcode),
            None => Err(LookupError::UnknownCode(value)),
        }
    }
}

/// Two dictionaries built from the same table answer every lookup alike.
pub proof fn lemma_build_is_deterministic(
    first: OpcodeDictionary,
    second: OpcodeDictionary,
    entries: Seq<(Seq<char>, usize)>,
)
    requires
        first@ == dictionary_of(resolve(entries)),
        second@ == dictionary_of(resolve(entries)),
    ensures
        forall|opcode: Opcodes| first@.opcode_to_int(opcode) == second@.opcode_to_int(opcode),
        forall|value: usize| first@.int_to_opcode(value) == second@.int_to_opcode(value),
{
}

} // verus!
