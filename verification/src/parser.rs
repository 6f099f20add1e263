use vstd::prelude::*;
use crate::types::OpcodeEntry;

verus! {

/// What is wrong with a line of an opcode table.
#[derive(Debug, PartialEq, Eq, Clone, Copy, Structural)]
pub enum LineError {
    /// The line does not consist of exactly two words.
    NotTwoWords,
    /// The second word is not a number that fits 32 bits.
    InvalidNumber,
}

/// The first line of an opcode table that is not valid, counted from 0, and
/// what is wrong with it.
#[derive(Debug, PartialEq, Eq, Clone, Copy, Structural)]
pub struct ParseError {
    pub line: usize,
    pub error: LineError,
}

/// Whether a character is white space, as Unicode defines it.
pub open spec fn spec_is_whitespace(c: char) -> bool {
    let code = c as u32;
    ||| 0x09 <= code <= 0x0D
    ||| code == 0x20
    ||| code == 0x85
    ||| code == 0xA0
    ||| code == 0x1680
    ||| 0x2000 <= code <= 0x200A
    ||| code == 0x2028
    ||| code == 0x2029
    ||| code == 0x202F
    ||| code == 0x205F
    ||| code == 0x3000
}

/// Whether a character is white space, as Unicode defines it.
pub fn is_whitespace(c: char) -> (space: bool)
    ensures
        space == spec_is_whitespace(c),
{
    let code: u32 = c as u32;
    (0x09 <= code && code <= 0x0D) || code == 0x20 || code == 0x85 || code == 0xA0 || code
        == 0x1680 || (0x2000 <= code && code <= 0x200A) || code == 0x2028 || code == 0x2029
        || code == 0x202F || code == 0x205F || code == 0x3000
}

/// How a text is cut into pieces.
pub enum Cut {
    /// At each line feed; a piece may be empty.
    Lines,
    /// At each character of white space; no piece is empty.
    Words,
}

impl Cut {
    /// Whether the text is cut at the character.
    pub open spec fn separates(self, c: char) -> bool {
        match self {
            Cut::Lines => c == '\n',
            Cut::Words => spec_is_whitespace(c),
        }
    }

    /// The pieces that are complete, and what follows the last separator.
    pub open spec fn scan(self, text: Seq<char>) -> (Seq<Seq<char>>, Seq<char>)
        decreases text.len(),
    {
        if text.len() == 0 {
            (Seq::empty(), Seq::empty())
        } else {
            let (done, current) = self.scan(text.drop_last());
            if !self.separates(text.last()) {
                (done, current.push(text.last()))
            } else if self is Lines || current.len() > 0 {
                (done.push(current), Seq::empty())
            } else {
                (done, Seq::empty())
            }
        }
    }

    /// The pieces of a text; what follows the last separator is a piece
    /// unless it is empty.
    pub open spec fn pieces(self, text: Seq<char>) -> Seq<Seq<char>> {
        let (done, current) = self.scan(text);
        if current.len() > 0 {
            done.push(current)
        } else {
            done
        }
    }
}

/// The lines of a text: each ends at a line feed or at the end of the text.
/// A line may be empty, but nothing follows a line feed at the end of the
/// text.
pub open spec fn lines(text: Seq<char>) -> Seq<Seq<char>> {
    Cut::Lines.pieces(text)
}

/// The words of a line: the longest runs of characters that are not white
/// space.
pub open spec fn words(line: Seq<char>) -> Seq<Seq<char>> {
    Cut::Words.pieces(line)
}

/// Whether no character of the piece separates.
pub open spec fn unbroken(cut: Cut, piece: Seq<char>) -> bool {
    forall|j: int| 0 <= j < piece.len() ==> !cut.separates(#[trigger] piece[j])
}

/// No piece of a text holds a separator, and no word is empty.
pub proof fn lemma_pieces_are_unbroken(cut: Cut, text: Seq<char>)
    ensures
        forall|k: int| 0 <= k < cut.pieces(text).len() ==> unbroken(cut, #[trigger] cut.pieces(text)[k]),
        cut is Words ==> forall|k: int|
            0 <= k < cut.pieces(text).len() ==> (#[trigger] cut.pieces(text)[k]).len() > 0,
{
    lemma_scan_is_unbroken(cut, text);
}

proof fn lemma_scan_is_unbroken(cut: Cut, text: Seq<char>)
    ensures
        unbroken(cut, cut.scan(text).1),
        forall|k: int| 0 <= k < cut.scan(text).0.len() ==> unbroken(cut, #[trigger] cut.scan(text).0[k]),
        cut is Words ==> forall|k: int|
            0 <= k < cut.scan(text).0.len() ==> (#[trigger] cut.scan(text).0[k]).len() > 0,
    decreases text.len(),
{
    if text.len() > 0 {
        lemma_scan_is_unbroken(cut, text.drop_last());
    }
}

/// Whether a character is one of the digits 0 to 9.
pub open spec fn is_digit(c: char) -> bool {
    '0' <= c <= '9'
}

/// The number that a sequence of digits stands for in base ten.
pub open spec fn digits_value(digits: Seq<char>) -> nat
    decreases digits.len(),
{
    if digits.len() == 0 {
        0
    } else {
        digits_value(digits.drop_last()) * 10 + (digits.last() as u32 - '0' as u32) as nat
    }
}

/// Whether every character is a digit.
pub open spec fn all_digits(digits: Seq<char>) -> bool {
    forall|i: int| 0 <= i < digits.len() ==> is_digit(#[trigger] digits[i])
}

/// A word without the plus sign that may stand at its start.
pub open spec fn without_sign(word: Seq<char>) -> Seq<char> {
    if word.len() > 0 && word[0] == '+' {
        word.skip(1)
    } else {
        word
    }
}

/// The number that a word stands for: the word is one or more digits, with
/// or without a plus sign before them, and the number fits 32 bits.
pub open spec fn number(word: Seq<char>) -> Option<u32> {
    let digits = without_sign(word);
    if digits.len() > 0 && all_digits(digits) && digits_value(digits) <= u32::MAX {
        Some(digits_value(digits) as u32)
    } else {
        None
    }
}

/// The entry that a line stands for: its first word is the name and its
/// second the number.
pub open spec fn parse_line(line: Seq<char>) -> Result<(Seq<char>, usize), LineError> {
    let words = words(line);
    if words.len() != 2 {
        Err(LineError::NotTwoWords)
    } else {
        match number(words[1]) {
            Some(number) => Ok((words[0], number as usize)),
            None => Err(LineError::InvalidNumber),
        }
    }
}

/// The entries that the lines stand for, where each line stands for one.
pub open spec fn entries_of(lines: Seq<Seq<char>>) -> Seq<(Seq<char>, usize)> {
    Seq::new(lines.len(), |i: int| parse_line(lines[i])->Ok_0)
}

/// Whether the lines before line `i` each stand for an entry.
pub open spec fn valid_before(lines: Seq<Seq<char>>, i: int) -> bool {
    forall|j: int| 0 <= j < i ==> parse_line(#[trigger] lines[j]) is Ok
}

/// The digits of a number never stand for less than those before them.
proof fn lemma_value_grows(digits: Seq<char>, n: int)
    requires
        0 <= n <= digits.len(),
    ensures
        digits_value(digits.take(n)) <= digits_value(digits),
    decreases digits.len(),
{
    if n == digits.len() {
        assert(digits.take(n) == digits);
    } else {
        lemma_value_grows(digits.drop_last(), n);
        assert(digits.drop_last().take(n) == digits.take(n));
    }
}

/// The characters of a string, in order.
fn characters(text: &str) -> (chars: Vec<char>)
    ensures
        chars@ == text@,
{
    let mut chars: Vec<char> = Vec::new();
    for c in it: text.chars()
        invariant
            chars@ == it.seq().take(it.index() as int),
            it.seq() == text@,
    {
        chars.push(c);
    }
    chars
}

/// The characters of a range as a string.
fn string_of(chars: &[char], from: usize, to: usize) -> (text: String)
    requires
        from <= to <= chars.len(),
    ensures
        text@ == chars@.subrange(from as int, to as int),
{
    let mut text = String::new();
    let mut i: usize = from;
    while i < to
        invariant
            from <= i <= to <= chars.len(),
            text@ == chars@.subrange(from as int, i as int),
        decreases to - i,
    {
        text.push(chars[i]);
        i += 1;
    }
    text
}

/// Reads the number that a range of characters stands for.
fn parse_number(chars: &[char], from: usize, to: usize) -> (parsed: Option<u32>)
    requires
        from <= to <= chars.len(),
    ensures
        parsed == number(chars@.subrange(from as int, to as int)),
{
    let ghost word = chars@.subrange(from as int, to as int);
    let start: usize = if from < to && chars[from] == '+' {
        from + 1
    } else {
        from
    };
    let ghost digits = chars@.subrange(start as int, to as int);
    assert(digits == without_sign(word));
    if start == to {
        return None;
    }
    let mut value: u64 = 0;
    let mut i: usize = start;
    while i < to
        invariant
            from <= start <= i <= to <= chars.len(),
            word == chars@.subrange(from as int, to as int),
            digits == chars@.subrange(start as int, to as int),
            digits == without_sign(word),
            forall|j: int| 0 <= j < i - start ==> is_digit(#[trigger] digits[j]),
            value == digits_value(digits.take(i - start)),
            value <= u32::MAX,
        decreases to - i,
    {
        let c = chars[i];
        assert(digits[i - start] == c);
        if !('0' <= c && c <= '9') {
            assert(!is_digit(digits[i - start]));
            return None;
        }
        let digit: u64 = (c as u32 - '0' as u32) as u64;
        assert(digits.take(i + 1 - start).drop_last() == digits.take(i - start));
        assert(digits.take(i + 1 - start).last() == c);
        value = value * 10 + digit;
        if value > u32::MAX as u64 {
            proof {
                lemma_value_grows(digits, i + 1 - start);
            }
            return None;
        }
        i += 1;
    }
    assert(digits.take(to - start) == digits);
    Some(value as u32)
}

/// Finds the words in a range of characters.
fn word_ranges(chars: &[char], from: usize, to: usize) -> (ranges: Vec<(usize, usize)>)
    requires
        from <= to <= chars.len(),
    ensures
        ranges.len() == words(chars@.subrange(from as int, to as int)).len(),
        forall|k: int|
            0 <= k < ranges.len() ==> from <= (#[trigger] ranges[k]).0 <= ranges[k].1 <= to
                && chars@.subrange(ranges[k].0 as int, ranges[k].1 as int) == words(
                chars@.subrange(from as int, to as int),
            )[k],
{
    let ghost line = chars@.subrange(from as int, to as int);
    let mut ranges: Vec<(usize, usize)> = Vec::new();
    let mut start: usize = from;
    let mut i: usize = from;
    while i < to
        invariant
            from <= start <= i <= to <= chars.len(),
            line == chars@.subrange(from as int, to as int),
            Cut::Words.scan(line.take(i - from)).1 == chars@.subrange(start as int, i as int),
            ranges.len() == Cut::Words.scan(line.take(i - from)).0.len(),
            forall|k: int|
                0 <= k < ranges.len() ==> from <= (#[trigger] ranges[k]).0 <= ranges[k].1 <= to
                    && chars@.subrange(ranges[k].0 as int, ranges[k].1 as int)
                    == Cut::Words.scan(line.take(i - from)).0[k],
        decreases to - i,
    {
        let c = chars[i];
        proof {
            assert(line.take(i + 1 - from).drop_last() == line.take(i - from));
            assert(line.take(i + 1 - from).last() == c);
            assert(chars@.subrange(start as int, i as int).push(c) == chars@.subrange(
                start as int,
                i + 1,
            ));
            assert(chars@.subrange(i + 1, i + 1) == Seq::<char>::empty());
        }
        if is_whitespace(c) {
            if start < i {
                ranges.push((start, i));
            }
            start = i + 1;
        }
        i += 1;
    }
    assert(line.take(to - from) == line);
    if start < to {
        ranges.push((start, to));
    }
    ranges
}

/// Reads the entry that a range of characters stands for.
fn parse_range(chars: &[char], from: usize, to: usize) -> (parsed: Result<OpcodeEntry, LineError>)
    requires
        from <= to <= chars.len(),
    ensures
        match parse_line(chars@.subrange(from as int, to as int)) {
            Ok(entry) => parsed is Ok && parsed->Ok_0.deep_view() == entry,
            Err(error) => parsed matches Err(e) && e == error,
        },
{
    let ranges = word_ranges(chars, from, to);
    if ranges.len() != 2 {
        return Err(LineError::NotTwoWords);
    }
    let name = ranges[0];
    let value = ranges[1];
    match parse_number(chars, value.0, value.1) {
        Some(number) => Ok(
            OpcodeEntry { opcode: string_of(chars, name.0, name.1), number: number as usize },
        ),
        None => Err(LineError::InvalidNumber),
    }
}

/// Reads an opcode table: on each line a name and a number, with white space
/// between them. Fails at the first line that is not so, an empty line
/// included.
pub fn parse_machine_text(text: &str) -> (parsed: Result<Vec<OpcodeEntry>, ParseError>)
    ensures
        match parsed {
            Ok(entries) => {
                &&& valid_before(lines(text@), lines(text@).len() as int)
                &&& entries.deep_view() == entries_of(lines(text@))
            },
            Err(error) => {
                &&& error.line < lines(text@).len()
                &&& valid_before(lines(text@), error.line as int)
                &&& parse_line(lines(text@)[error.line as int]) == Err::<(Seq<char>, usize), LineError>(
                    error.error,
                )
            },
        },
{
    let chars = characters(text);
    let mut entries: Vec<OpcodeEntry> = Vec::new();
    let mut start: usize = 0;
    let mut i: usize = 0;
    while i < chars.len()
        invariant
            start <= i <= chars.len(),
            chars@ == text@,
            Cut::Lines.scan(chars@.take(i as int)).1 == chars@.subrange(start as int, i as int),
            entries.len() == Cut::Lines.scan(chars@.take(i as int)).0.len(),
            entries.len() <= i,
            forall|k: int|
                0 <= k < entries.len() ==> parse_line(
                    #[trigger] Cut::Lines.scan(chars@.take(i as int)).0[k],
                ) == Ok::<(Seq<char>, usize), LineError>(entries@[k].deep_view()),
        decreases chars.len() - i,
    {
        let c = chars[i];
        proof {
            assert(chars@.take(i + 1).drop_last() == chars@.take(i as int));
            assert(chars@.take(i + 1).last() == c);
            assert(chars@.subrange(start as int, i as int).push(c) == chars@.subrange(
                start as int,
                i + 1,
            ));
            assert(chars@.subrange(i + 1, i + 1) == Seq::<char>::empty());
        }
        if c == '\n' {
            match parse_range(chars.as_slice(), start, i) {
                Ok(entry) => {
                    entries.push(entry);
                },
                Err(error) => {
                    proof {
                        let found = Cut::Lines.scan(chars@.take(i + 1)).0;
                        lemma_scan_extends(Cut::Lines, chars@, i + 1);
                        assert(lines(text@)[entries.len() as int] == found[entries.len() as int]);
                        assert forall|j: int| 0 <= j < entries.len() implies parse_line(
                            #[trigger] lines(text@)[j],
                        ) is Ok by {
                            assert(lines(text@)[j] == found[j]);
                        }
                    }
                    return Err(ParseError { line: entries.len(), error });
                },
            }
            start = i + 1;
        }
        i += 1;
    }
    assert(chars@.take(chars.len() as int) == chars@);
    if start < chars.len() {
        match parse_range(chars.as_slice(), start, chars.len()) {
            Ok(entry) => {
                entries.push(entry);
            },
            Err(error) => {
                return Err(ParseError { line: entries.len(), error });
            },
        }
    }
    assert(entries.deep_view() =~= entries_of(lines(text@)));
    Ok(entries)
}

/// The pieces that are complete in a part of a text are pieces of the
/// whole text, at the same places.
proof fn lemma_scan_extends(cut: Cut, text: Seq<char>, n: int)
    requires
        0 <= n <= text.len(),
    ensures
        cut.scan(text.take(n)).0.len() <= cut.pieces(text).len(),
        forall|k: int|
            0 <= k < cut.scan(text.take(n)).0.len() ==> #[trigger] cut.pieces(text)[k] == cut.scan(
                text.take(n),
            ).0[k],
    decreases text.len() - n,
{
    if n == text.len() {
        assert(text.take(n) == text);
    } else {
        assert(text.take(n + 1).drop_last() == text.take(n));
        lemma_scan_extends(cut, text, n + 1);
    }
}

} // verus!
