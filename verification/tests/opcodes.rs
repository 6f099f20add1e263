use redstone_emulator::opcodes::{ConfigError, LookupError, OpcodeDictionary, Opcodes, OPCODE_COUNT};
use redstone_emulator::types::OpcodeEntry;

fn entry(name: &str, number: usize) -> OpcodeEntry {
    OpcodeEntry { opcode: name.to_string(), number }
}

const ALL_NAMES: [&str; 26] = [
    "NOP", "ADD", "SUB", "MULT", "DIV", "MOD", "OR", "XOR", "NOR", "NAND", "AND", "NOT", "SHIFTL",
    "SHIFTR", "LOAD", "HPUSH", "HPOP", "CALLR", "RETURN", "RSTORE", "RCOPY", "ICOPY", "JMP", "JMPZ",
    "PRINT", "HALT",
];

#[test]
fn every_opcode_has_its_name() {
    assert_eq!(OPCODE_COUNT, 26u8);
    for (i, name) in ALL_NAMES.iter().enumerate() {
        let opcode: Opcodes = Opcodes::from_index(i as u8).unwrap();
        assert_eq!(opcode.name(), *name);
        assert_eq!(opcode.index(), i as u8);
        assert_eq!(Opcodes::from_name(name), Some(opcode));
    }
    assert_eq!(Opcodes::from_index(26), None);
    assert_eq!(Opcodes::from_index(255), None);
}

#[test]
fn first_and_last_opcode() {
    assert_eq!(Opcodes::from_index(0), Some(Opcodes::NOP));
    assert_eq!(Opcodes::from_index(25), Some(Opcodes::HALT));
    assert_eq!(Opcodes::JMPZ.name(), "JMPZ");
    assert_eq!(Opcodes::from_name("SHIFTL"), Some(Opcodes::SHIFTL));
}

#[test]
fn names_are_matched_exactly() {
    assert_eq!(Opcodes::from_name("add"), None);
    assert_eq!(Opcodes::from_name("Add"), None);
    assert_eq!(Opcodes::from_name("ADD "), None);
    assert_eq!(Opcodes::from_name(" ADD"), None);
    assert_eq!(Opcodes::from_name(""), None);
    assert_eq!(Opcodes::from_name("AD"), None);
    assert_eq!(Opcodes::from_name("ADDX"), None);
    assert_eq!(Opcodes::from_name("JUMP"), None);
    assert_eq!(Opcodes::from_name("ÄDD"), None);
}

#[test]
fn dictionary_maps_both_ways() {
    let entries = vec![entry("ADD", 37), entry("HALT", 0), entry("JMP", 70000)];
    let dictionary = OpcodeDictionary::build(&entries).unwrap();
    assert_eq!(dictionary.opcode_to_int(Opcodes::ADD), Ok(37));
    assert_eq!(dictionary.opcode_to_int(Opcodes::HALT), Ok(0));
    assert_eq!(dictionary.opcode_to_int(Opcodes::JMP), Ok(70000));
    assert_eq!(dictionary.int_to_opcode(37), Ok(Opcodes::ADD));
    assert_eq!(dictionary.int_to_opcode(0), Ok(Opcodes::HALT));
    assert_eq!(dictionary.int_to_opcode(70000), Ok(Opcodes::JMP));
}

#[test]
fn lookup_of_a_missing_key_names_the_key() {
    let entries = vec![entry("ADD", 37)];
    let dictionary = OpcodeDictionary::build(&entries).unwrap();
    assert_eq!(
        dictionary.opcode_to_int(Opcodes::SUB),
        Err(LookupError::UnknownOpcode(Opcodes::SUB))
    );
    assert_eq!(dictionary.int_to_opcode(38), Err(LookupError::UnknownCode(38)));
}

#[test]
fn empty_table_gives_empty_dictionary() {
    let entries: Vec<OpcodeEntry> = Vec::new();
    let dictionary = OpcodeDictionary::build(&entries).unwrap();
    for i in 0..OPCODE_COUNT {
        let opcode: Opcodes = Opcodes::from_index(i).unwrap();
        assert_eq!(dictionary.opcode_to_int(opcode), Err(LookupError::UnknownOpcode(opcode)));
    }
    assert_eq!(dictionary.int_to_opcode(0), Err(LookupError::UnknownCode(0)));
}

#[test]
fn unknown_opcode_fails_with_its_name() {
    let entries = vec![entry("ADD", 1), entry("FROB", 2), entry("SUB", 3)];
    match OpcodeDictionary::build(&entries) {
        Err(error) => assert_eq!(error, ConfigError::UnknownOpcode("FROB".to_string())),
        Ok(_) => panic!("a table with an unknown opcode was accepted"),
    }
}

#[test]
fn first_unknown_opcode_is_the_one_named() {
    let entries = vec![entry("ADD", 1), entry("first", 2), entry("second", 3)];
    match OpcodeDictionary::build(&entries) {
        Err(error) => assert_eq!(error, ConfigError::UnknownOpcode("first".to_string())),
        Ok(_) => panic!("a table with an unknown opcode was accepted"),
    }
    let lower = vec![entry("add", 1)];
    match OpcodeDictionary::build(&lower) {
        Err(error) => assert_eq!(error, ConfigError::UnknownOpcode("add".to_string())),
        Ok(_) => panic!("a lower-case name was accepted"),
    }
}

#[test]
fn encoding_then_decoding_gives_the_opcode_back() {
    let mut entries: Vec<OpcodeEntry> = Vec::new();
    for (i, name) in ALL_NAMES.iter().enumerate() {
        entries.push(entry(name, 1000 - 7 * i));
    }
    let dictionary = OpcodeDictionary::build(&entries).unwrap();
    for i in 0..OPCODE_COUNT {
        let opcode: Opcodes = Opcodes::from_index(i).unwrap();
        let code: usize = dictionary.opcode_to_int(opcode).unwrap();
        assert_eq!(code, 1000 - 7 * i as usize);
        assert_eq!(dictionary.int_to_opcode(code), Ok(opcode));
    }
}

#[test]
fn later_entry_wins() {
    let entries = vec![entry("ADD", 1), entry("ADD", 2)];
    let dictionary = OpcodeDictionary::build(&entries).unwrap();
    assert_eq!(dictionary.opcode_to_int(Opcodes::ADD), Ok(2));
    assert_eq!(dictionary.int_to_opcode(1), Ok(Opcodes::ADD));
    assert_eq!(dictionary.int_to_opcode(2), Ok(Opcodes::ADD));

    let shared = vec![entry("ADD", 5), entry("SUB", 5)];
    let dictionary = OpcodeDictionary::build(&shared).unwrap();
    assert_eq!(dictionary.opcode_to_int(Opcodes::ADD), Ok(5));
    assert_eq!(dictionary.opcode_to_int(Opcodes::SUB), Ok(5));
    assert_eq!(dictionary.int_to_opcode(5), Ok(Opcodes::SUB));
}

#[test]
fn building_twice_gives_the_same_lookups() {
    let entries = vec![entry("LOAD", 3), entry("ADD", 9), entry("LOAD", 4), entry("JMP", 9)];
    let first = OpcodeDictionary::build(&entries).unwrap();
    let second = OpcodeDictionary::build(&entries).unwrap();
    for i in 0..OPCODE_COUNT {
        let opcode: Opcodes = Opcodes::from_index(i).unwrap();
        assert_eq!(first.opcode_to_int(opcode), second.opcode_to_int(opcode));
    }
    for code in 0..16usize {
        assert_eq!(first.int_to_opcode(code), second.int_to_opcode(code));
    }
    assert_eq!(first.opcode_to_int(Opcodes::LOAD), Ok(4));
    assert_eq!(first.int_to_opcode(9), Ok(Opcodes::JMP));
}
