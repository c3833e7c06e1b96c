//! Assembly text: one instruction to a line.
//!
//! A line holds words with white space between and around them. The first
//! word is a mnemonic, in upper or lower case. Where the opcode takes an
//! operand, the second word, if there is one, is the operand: a number in
//! decimal, or in hexadecimal behind `0x`. Further words are passed over,
//! and so is a line without words.

use vstd::prelude::*;

use crate::assembler::{parse_pointer, parse_value, pointer, value};
use crate::error::{BytecodeError, BytecodeErrorKind};
use crate::opcode::{Op, OpcodeV1, OperandKind};
use crate::rawbytes::{to_value, value_of};
use crate::text::{lower, to_chars, to_lower};
use crate::vm::Instructions;
use crate::Value;

verus! {

/// Assembly text.
#[derive(Debug, Clone, Copy)]
pub struct Code<'a>(pub &'a str);

/// What is wrong with a line of assembly text.
pub enum SyntaxFault {
    /// The first word is no mnemonic.
    Mnemonic(Seq<char>),
    /// The second word is no number that the opcode can take.
    Operand(Seq<char>),
}

/// Whether a fault of the library says what is wrong with a line: it is of
/// the kind that goes with the fault of the line and holds the same word,
/// and it has no pointer.
pub open spec fn tells(error: BytecodeError, fault: SyntaxFault) -> bool {
    match fault {
        SyntaxFault::Mnemonic(word) => error matches (
            BytecodeErrorKind::InvalidOpcode2(held),
            None,
        ) && held@ == word,
        SyntaxFault::Operand(word) => error matches (
            BytecodeErrorKind::InvalidOperand(held),
            None,
        ) && held@ == word,
    }
}

/// Whether a character is white space: a blank, a tab, a line or page
/// break, or one of the spaces beyond ASCII.
pub open spec fn is_space(c: char) -> bool {
    ||| '\u{9}' <= c <= '\u{D}'
    ||| c == ' '
    ||| c == '\u{85}'
    ||| c == '\u{A0}'
    ||| c == '\u{1680}'
    ||| '\u{2000}' <= c <= '\u{200A}'
    ||| c == '\u{2028}'
    ||| c == '\u{2029}'
    ||| c == '\u{202F}'
    ||| c == '\u{205F}'
    ||| c == '\u{3000}'
}

/// Where the line that starts at `from` ends: at the first line break from
/// there on, or at the end of the text.
pub open spec fn line_end(text: Seq<char>, from: int) -> int
    decreases text.len() - from,
{
    if from >= text.len() {
        text.len() as int
    } else if text[from] == '\n' {
        from
    } else {
        line_end(text, from + 1)
    }
}

/// Where the first word of `text[from..to]` starts: at the first character
/// that is no white space, or at `to` where there is none.
pub open spec fn word_start(text: Seq<char>, from: int, to: int) -> int
    decreases to - from,
{
    if from >= to {
        to
    } else if !is_space(text[from]) {
        from
    } else {
        word_start(text, from + 1, to)
    }
}

/// Where the word that starts at `from` ends: at the first white space from
/// there on, or at `to`.
pub open spec fn word_end(text: Seq<char>, from: int, to: int) -> int
    decreases to - from,
{
    if from >= to {
        to
    } else if is_space(text[from]) {
        from
    } else {
        word_end(text, from + 1, to)
    }
}

/// Whether a word starts with `0x`.
pub open spec fn is_hexadecimal(word: Seq<char>) -> bool {
    word.len() >= 2 && word[0] == '0' && word[1] == 'x'
}

/// The operand that a word spells for an opcode that takes operands of the
/// kind given. A pointer is held as the value that shares its bits.
pub open spec fn operand(word: Seq<char>, kind: OperandKind) -> Option<Value> {
    let (digits, radix) = if is_hexadecimal(word) {
        (word.skip(2), 16int)
    } else {
        (word, 10int)
    };
    match kind {
        OperandKind::Pointer => match pointer(digits, radix) {
            Some(read) => Some(value_of(read)),
            None => None,
        },
        _ => value(digits, radix),
    }
}

/// The instruction that the line `text[from..to]` spells, if the line holds
/// a word at all.
pub open spec fn instruction(text: Seq<char>, from: int, to: int) -> Result<
    Option<Op>,
    SyntaxFault,
> {
    let start = word_start(text, from, to);
    let end = word_end(text, start, to);
    let word = text.subrange(start, end);
    if start >= to {
        Ok(None)
    } else {
        match OpcodeV1::of_word(word.map_values(|c: char| lower(c))) {
            None => Err(SyntaxFault::Mnemonic(word)),
            Some(opcode) => {
                let second = word_start(text, end, to);
                let second_end = word_end(text, second, to);
                let second_word = text.subrange(second, second_end);
                if !opcode.has_operand() || second >= to {
                    Ok(Some(Op { opcode, operand: None }))
                } else {
                    match operand(second_word, opcode.operand_kind()) {
                        Some(read) => Ok(Some(Op { opcode, operand: Some(read) })),
                        None => Err(SyntaxFault::Operand(second_word)),
                    }
                }
            },
        }
    }
}

/// The instructions that the lines of `text` from `from` on spell, behind
/// those that are `done`; or what is wrong with the first line that spells
/// none.
pub open spec fn assemble_from(text: Seq<char>, from: int, done: Seq<Op>) -> Result<
    Seq<Op>,
    SyntaxFault,
>
    decreases text.len() + 1 - from,
{
    if from >= text.len() {
        Ok(done)
    } else {
        let end = line_end(text, from);
        proof {
            lemma_line_end(text, from);
        }
        match instruction(text, from, end) {
            Err(fault) => Err(fault),
            Ok(None) => assemble_from(text, end + 1, done),
            Ok(Some(op)) => assemble_from(text, end + 1, done.push(op)),
        }
    }
}

/// The instructions that a text spells, line by line.
pub open spec fn assemble(text: Seq<char>) -> Result<Seq<Op>, SyntaxFault> {
    assemble_from(text, 0, Seq::empty())
}

/// A line ends at or after its start, within the text, and holds no line
/// break.
pub proof fn lemma_line_end(text: Seq<char>, from: int)
    ensures
        from <= text.len() ==> from <= line_end(text, from) <= text.len(),
        line_end(text, from) < text.len() ==> text[line_end(text, from)] == '\n',
        forall|i: int| from <= i < line_end(text, from) ==> text[i] != '\n',
    decreases text.len() - from,
{
    if from < text.len() && text[from] != '\n' {
        lemma_line_end(text, from + 1);
    }
}

/// Whether a character is white space ([`is_space`]).
pub fn is_white_space(c: char) -> (space: bool)
    ensures
        space == is_space(c),
{
    ('\u{9}' <= c && c <= '\u{D}') || c == ' ' || c == '\u{85}' || c == '\u{A0}' || c
        == '\u{1680}' || ('\u{2000}' <= c && c <= '\u{200A}') || c == '\u{2028}' || c == '\u{2029}'
        || c == '\u{202F}' || c == '\u{205F}' || c == '\u{3000}'
}

/// Finds the end of the line that starts at `from` ([`line_end`]).
fn find_line_end(chars: &[char], from: usize) -> (end: usize)
    requires
        from <= chars@.len(),
    ensures
        end == line_end(chars@, from as int),
        from <= end <= chars@.len(),
{
    let mut end = from;
    while end < chars.len() && chars[end] != '\n'
        invariant
            from <= end <= chars@.len(),
            line_end(chars@, from as int) == line_end(chars@, end as int),
        decreases chars@.len() - end,
    {
        end += 1;
    }
    end
}

/// Finds the start of the first word of `chars[from..to]` ([`word_start`]).
fn find_word_start(chars: &[char], from: usize, to: usize) -> (start: usize)
    requires
        from <= to <= chars@.len(),
    ensures
        start == word_start(chars@, from as int, to as int),
        from <= start <= to,
{
    let mut start = from;
    while start < to && is_white_space(chars[start])
        invariant
            from <= start <= to <= chars@.len(),
            word_start(chars@, from as int, to as int) == word_start(
                chars@,
                start as int,
                to as int,
            ),
        decreases to - start,
    {
        start += 1;
    }
    start
}

/// Finds the end of the word that starts at `from` ([`word_end`]).
fn find_word_end(chars: &[char], from: usize, to: usize) -> (end: usize)
    requires
        from <= to <= chars@.len(),
    ensures
        end == word_end(chars@, from as int, to as int),
        from <= end <= to,
{
    let mut end = from;
    while end < to && !is_white_space(chars[end])
        invariant
            from <= end <= to <= chars@.len(),
            word_end(chars@, from as int, to as int) == word_end(chars@, end as int, to as int),
        decreases to - end,
    {
        end += 1;
    }
    end
}

/// Reads the word `chars[from..to]` as the operand of an opcode that takes
/// operands of the kind given ([`operand`]).
fn parse_operand(chars: &[char], from: usize, to: usize, kind: OperandKind) -> (read: Option<Value>)
    requires
        from <= to <= chars@.len(),
    ensures
        read == operand(chars@.subrange(from as int, to as int), kind),
{
    let ghost word = chars@.subrange(from as int, to as int);
    let hexadecimal = to - from >= 2 && chars[from] == '0' && chars[from + 1] == 'x';
    let (start, radix): (usize, u64) = if hexadecimal {
        (from + 2, 16)
    } else {
        (from, 10)
    };
    proof {
        if to - from >= 2 {
            assert(word[0] == chars@[from as int]);
            assert(word[1] == chars@[from + 1]);
        }
        assert(chars@.subrange(start as int, to as int) =~= if is_hexadecimal(word) {
            word.skip(2)
        } else {
            word
        });
    }
    match kind {
        OperandKind::Pointer => match parse_pointer(chars, start, to, radix) {
            Some(read) => Some(to_value(read)),
            None => None,
        },
        _ => parse_value(chars, start, to, radix),
    }
}

/// The text `text[from..to]` as a string of its own.
fn copy_word(text: &str, from: usize, to: usize) -> (word: String)
    requires
        from <= to <= text@.len(),
    ensures
        word@ == text@.subrange(from as int, to as int),
{
    String::from_str(text.substring_char(from, to))
}

/// Finds the opcode whose mnemonic `chars[from..to]` spells, in upper or
/// lower case.
fn parse_mnemonic(chars: &[char], from: usize, to: usize) -> (found: Option<OpcodeV1>)
    requires
        from <= to <= chars@.len(),
    ensures
        found == OpcodeV1::of_word(
            chars@.subrange(from as int, to as int).map_values(|c: char| lower(c)),
        ),
{
    let ghost word = chars@.subrange(from as int, to as int);
    let mut small: Vec<char> = Vec::new();
    let mut i: usize = from;
    while i < to
        invariant
            from <= i <= to <= chars@.len(),
            word == chars@.subrange(from as int, to as int),
            small@ == word.take(i - from).map_values(|c: char| lower(c)),
        decreases to - i,
    {
        small.push(to_lower(chars[i]));
        assert(word.take(i - from + 1).map_values(|c: char| lower(c)) =~= word.take(
            i - from,
        ).map_values(|c: char| lower(c)).push(lower(chars@[i as int])));
        i += 1;
    }
    assert(word.take(to - from) =~= word);
    assert(small@.subrange(0, small@.len() as int) =~= small@);
    OpcodeV1::lookup(small.as_slice(), 0, small.len())
}

impl<'a> Code<'a> {
    /// Reads the instruction that the line `chars[from..to]` spells, if the
    /// line holds a word at all ([`instruction`]). `chars` are the
    /// characters of `text`.
    ///
    /// A first word that is no mnemonic is handed back inside the fault
    /// `InvalidOpcode2`, and a second word that is no operand for the
    /// opcode inside the fault `InvalidOperand`.
    fn parse_op(text: &str, chars: &[char], from: usize, to: usize) -> (result: Result<
        Option<Op>,
        BytecodeError,
    >)
        requires
            chars@ == text@,
            from <= to <= chars@.len(),
        ensures
            match instruction(chars@, from as int, to as int) {
                Ok(op) => result == Ok::<Option<Op>, BytecodeError>(op),
                Err(fault) => result matches Err(error) && tells(error, fault),
            },
    {
        let start = find_word_start(chars, from, to);
        if start >= to {
            return Ok(None);
        }
        let end = find_word_end(chars, start, to);
        let opcode = match parse_mnemonic(chars, start, end) {
            Some(opcode) => opcode,
            None => {
                return Err((BytecodeErrorKind::InvalidOpcode2(copy_word(text, start, end)), None));
            },
        };
        let second = find_word_start(chars, end, to);
        if !opcode.takes_operand() || second >= to {
            return Ok(Some(Op::new(opcode, None)));
        }
        let second_end = find_word_end(chars, second, to);
        match parse_operand(chars, second, second_end, opcode.kind()) {
            Some(read) => Ok(Some(Op::new(opcode, Some(read)))),
            None => Err(
                (BytecodeErrorKind::InvalidOperand(copy_word(text, second, second_end)), None),
            ),
        }
    }

    /// Assembles the text: reads it line by line into instructions
    /// ([`assemble`]).
    ///
    /// Fails at the first line whose first word is no mnemonic
    /// (`InvalidOpcode2`) or whose second word is no operand for its opcode
    /// (`InvalidOperand`); the fault holds the word.
    pub fn parse(&self) -> (result: Result<Instructions, BytecodeError>)
        ensures
            match assemble(self.0@) {
                Ok(ops) => result matches Ok(instructions) && instructions@ == ops,
                Err(fault) => result matches Err(error) && tells(error, fault),
            },
    {
        let chars = to_chars(self.0);
        let mut ops: Vec<Op> = Vec::new();
        let mut from: usize = 0;
        while from < chars.len()
            invariant
                chars@ == self.0@,
                assemble(self.0@) == assemble_from(chars@, from as int, ops@),
            decreases chars@.len() - from,
        {
            let end = find_line_end(chars.as_slice(), from);
            match Code::parse_op(self.0, chars.as_slice(), from, end) {
                Err(fault) => {
                    return Err(fault);
                },
                Ok(None) => {},
                Ok(Some(op)) => {
                    ops.push(op);
                },
            }
            if end == chars.len() {
                assert(assemble_from(chars@, end + 1, ops@) == Ok::<Seq<Op>, SyntaxFault>(ops@));
                return Ok(Instructions(ops));
            }
            from = end + 1;
        }
        Ok(Instructions(ops))
    }
}

} // verus!
