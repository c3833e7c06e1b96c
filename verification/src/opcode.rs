//! The opcode catalogue and the instruction type.
//!
//! The identifier, the operand kind and the mnemonic of each opcode are laid
//! down once, in [`OpcodeV1::byte`], [`OpcodeV1::operand_kind`] and
//! [`OpcodeV1::word`]. Reading an identifier or a mnemonic is defined as the
//! inverse of writing it, and the tables that the compiled code holds are
//! proved to agree with these.
//!
//! The catalogue is closed: nineteen opcodes have an identifier and a
//! mnemonic, and no byte or word beyond theirs is read as an opcode. The
//! two opcodes of the store have neither.

use vstd::prelude::*;

use crate::error::{BytecodeError, BytecodeErrorKind};
use crate::text::{spells, to_chars};
use crate::Value;

verus! {

/// The operations of the machine.
#[derive(Debug, Clone, Copy, PartialEq, Eq, Structural)]
#[non_exhaustive]
pub enum OpcodeV1 {
    /// Does nothing.
    Noop,
    /// Pushes its operand.
    Push,
    /// Pops two values and pushes their sum.
    Add,
    /// Pops two values and pushes their difference.
    Sub,
    /// Pops two values and pushes their product.
    Mul,
    /// Pops two values and pushes their quotient.
    Div,
    /// Pops two values and pushes the remainder of their division.
    Mod,
    /// Continues at its operand.
    Jump,
    /// Pops a value and, if it is zero, continues at its operand.
    JumpIfFalse,
    /// Pops two values and pushes 1 if the lower is greater than the upper, else 0.
    GT,
    /// Pops two values and pushes 1 if the lower is less than the upper, else 0.
    LT,
    /// Pops two values and pushes 1 if the lower is at least the upper, else 0.
    GTE,
    /// Pops two values and pushes 1 if the lower is at most the upper, else 0.
    LTE,
    /// Pops two values and pushes 1 if they are equal, else 0.
    EQ,
    /// Opens a procedure: skips the number of instructions its operand gives.
    Proc,
    /// Remembers the next instruction and continues at its operand.
    Call,
    /// Continues at the instruction that the latest call remembered.
    Return,
    /// Pops a value and keeps it under the key its operand gives. It has no
    /// identifier and no mnemonic: it is made in memory only.
    Store,
    /// Pushes the value kept under the key its operand gives. It has no
    /// identifier and no mnemonic: it is made in memory only.
    Load,
    /// Ends the run.
    Exit,
    /// Records the stack, then discards as many values as its operand says, or all of them.
    Debug,
}

/// What kind of operand an opcode takes.
#[derive(Debug, Clone, Copy, PartialEq, Eq, Structural)]
pub enum OperandKind {
    /// The instruction is the opcode alone.
    Nothing,
    /// A value: a number to push, a count, a key.
    Value,
    /// A pointer: a jump target or a number of instructions.
    Pointer,
}

/// Whether an opcode occurs in a list of opcodes.
pub open spec fn lists(all: Seq<OpcodeV1>, opcode: OpcodeV1) -> bool {
    exists|i: int| 0 <= i < all.len() && all[i] == opcode
}

impl OpcodeV1 {
    /// The identifier that stands for the opcode in a byte stream, where it
    /// has one.
    pub open spec fn byte(self) -> Option<u8> {
        match self {
            OpcodeV1::Noop => Some(0x00),
            OpcodeV1::Push => Some(0x01),
            OpcodeV1::Add => Some(0x02),
            OpcodeV1::Sub => Some(0x03),
            OpcodeV1::Mul => Some(0x04),
            OpcodeV1::Div => Some(0x05),
            OpcodeV1::Mod => Some(0x06),
            OpcodeV1::Jump => Some(0x07),
            OpcodeV1::JumpIfFalse => Some(0x08),
            OpcodeV1::GT => Some(0x09),
            OpcodeV1::LT => Some(0x0A),
            OpcodeV1::GTE => Some(0x0B),
            OpcodeV1::LTE => Some(0x0C),
            OpcodeV1::EQ => Some(0x0D),
            OpcodeV1::Proc => Some(0x0E),
            OpcodeV1::Call => Some(0x0F),
            OpcodeV1::Return => Some(0x10),
            OpcodeV1::Store => None,
            OpcodeV1::Load => None,
            OpcodeV1::Exit => Some(0xFE),
            OpcodeV1::Debug => Some(0xFF),
        }
    }

    /// The opcode that a byte identifies, if it identifies one.
    pub open spec fn of_byte(byte: u8) -> Option<OpcodeV1> {
        if exists|opcode: OpcodeV1| opcode.byte() == Some(byte) {
            Some(choose|opcode: OpcodeV1| opcode.byte() == Some(byte))
        } else {
            None
        }
    }

    /// The kind of operand the opcode takes.
    pub open spec fn operand_kind(self) -> OperandKind {
        match self {
            OpcodeV1::Push | OpcodeV1::Store | OpcodeV1::Load | OpcodeV1::Debug => OperandKind::Value,
            OpcodeV1::Jump | OpcodeV1::JumpIfFalse | OpcodeV1::Proc | OpcodeV1::Call => OperandKind::Pointer,
            _ => OperandKind::Nothing,
        }
    }

    /// Whether an instruction with this opcode carries an operand.
    pub open spec fn has_operand(self) -> bool {
        self.operand_kind() != OperandKind::Nothing
    }

    /// The word that stands for the opcode in assembly text, where it has
    /// one.
    pub open spec fn word(self) -> Option<Seq<char>> {
        match self {
            OpcodeV1::Noop => Some("noop"@),
            OpcodeV1::Push => Some("push"@),
            OpcodeV1::Add => Some("add"@),
            OpcodeV1::Sub => Some("sub"@),
            OpcodeV1::Mul => Some("mul"@),
            OpcodeV1::Div => Some("div"@),
            OpcodeV1::Mod => Some("mod"@),
            OpcodeV1::Jump => Some("jump"@),
            OpcodeV1::JumpIfFalse => Some("jump_if_false"@),
            OpcodeV1::GT => Some("gt"@),
            OpcodeV1::LT => Some("lt"@),
            OpcodeV1::GTE => Some("gte"@),
            OpcodeV1::LTE => Some("lte"@),
            OpcodeV1::EQ => Some("eq"@),
            OpcodeV1::Proc => Some("proc"@),
            OpcodeV1::Call => Some("call"@),
            OpcodeV1::Return => Some("return"@),
            OpcodeV1::Store => None,
            OpcodeV1::Load => None,
            OpcodeV1::Exit => Some("exit"@),
            OpcodeV1::Debug => Some("debug"@),
        }
    }

    /// The opcode that a word stands for, if it stands for one. Upper and
    /// lower case are different letters here.
    pub open spec fn of_word(word: Seq<char>) -> Option<OpcodeV1> {
        if exists|opcode: OpcodeV1| opcode.word() == Some(word) {
            Some(choose|opcode: OpcodeV1| opcode.word() == Some(word))
        } else {
            None
        }
    }

    /// The name under which the opcode is shown.
    pub open spec fn label(self) -> Seq<char> {
        match self {
            OpcodeV1::Noop => "Noop"@,
            OpcodeV1::Push => "Push"@,
            OpcodeV1::Add => "Add"@,
            OpcodeV1::Sub => "Sub"@,
            OpcodeV1::Mul => "Mul"@,
            OpcodeV1::Div => "Div"@,
            OpcodeV1::Mod => "Mod"@,
            OpcodeV1::Jump => "Jump"@,
            OpcodeV1::JumpIfFalse => "JumpIfFalse"@,
            OpcodeV1::GT => "GT"@,
            OpcodeV1::LT => "LT"@,
            OpcodeV1::GTE => "GTE"@,
            OpcodeV1::LTE => "LTE"@,
            OpcodeV1::EQ => "EQ"@,
            OpcodeV1::Proc => "Proc"@,
            OpcodeV1::Call => "Call"@,
            OpcodeV1::Return => "Return"@,
            OpcodeV1::Store => "Store"@,
            OpcodeV1::Load => "Load"@,
            OpcodeV1::Exit => "Exit"@,
            OpcodeV1::Debug => "Debug"@,
        }
    }

    /// The identifier of the opcode, where it has one.
    pub fn to_byte(self) -> (byte: Option<u8>)
        ensures
            byte == self.byte(),
    {
        match self {
            OpcodeV1::Noop => Some(0x00),
            OpcodeV1::Push => Some(0x01),
            OpcodeV1::Add => Some(0x02),
            OpcodeV1::Sub => Some(0x03),
            OpcodeV1::Mul => Some(0x04),
            OpcodeV1::Div => Some(0x05),
            OpcodeV1::Mod => Some(0x06),
            OpcodeV1::Jump => Some(0x07),
            OpcodeV1::JumpIfFalse => Some(0x08),
            OpcodeV1::GT => Some(0x09),
            OpcodeV1::LT => Some(0x0A),
            OpcodeV1::GTE => Some(0x0B),
            OpcodeV1::LTE => Some(0x0C),
            OpcodeV1::EQ => Some(0x0D),
            OpcodeV1::Proc => Some(0x0E),
            OpcodeV1::Call => Some(0x0F),
            OpcodeV1::Return => Some(0x10),
            OpcodeV1::Store => None,
            OpcodeV1::Load => None,
            OpcodeV1::Exit => Some(0xFE),
            OpcodeV1::Debug => Some(0xFF),
        }
    }

    /// The kind of operand the opcode takes.
    pub fn kind(self) -> (kind: OperandKind)
        ensures
            kind == self.operand_kind(),
    {
        match self {
            OpcodeV1::Push | OpcodeV1::Store | OpcodeV1::Load | OpcodeV1::Debug => OperandKind::Value,
            OpcodeV1::Jump | OpcodeV1::JumpIfFalse | OpcodeV1::Proc | OpcodeV1::Call => OperandKind::Pointer,
            _ => OperandKind::Nothing,
        }
    }

    /// Whether an instruction with this opcode carries an operand.
    pub fn takes_operand(self) -> (takes: bool)
        ensures
            takes == self.has_operand(),
    {
        match self.kind() {
            OperandKind::Nothing => false,
            _ => true,
        }
    }

    /// The word that stands for the opcode in assembly text, where it has
    /// one.
    pub fn mnemonic(self) -> (word: Option<&'static str>)
        ensures
            match self.word() {
                Some(letters) => word matches Some(found) && found@ == letters,
                None => word is None,
            },
    {
        match self {
            OpcodeV1::Noop => Some("noop"),
            OpcodeV1::Push => Some("push"),
            OpcodeV1::Add => Some("add"),
            OpcodeV1::Sub => Some("sub"),
            OpcodeV1::Mul => Some("mul"),
            OpcodeV1::Div => Some("div"),
            OpcodeV1::Mod => Some("mod"),
            OpcodeV1::Jump => Some("jump"),
            OpcodeV1::JumpIfFalse => Some("jump_if_false"),
            OpcodeV1::GT => Some("gt"),
            OpcodeV1::LT => Some("lt"),
            OpcodeV1::GTE => Some("gte"),
            OpcodeV1::LTE => Some("lte"),
            OpcodeV1::EQ => Some("eq"),
            OpcodeV1::Proc => Some("proc"),
            OpcodeV1::Call => Some("call"),
            OpcodeV1::Return => Some("return"),
            OpcodeV1::Store => None,
            OpcodeV1::Load => None,
            OpcodeV1::Exit => Some("exit"),
            OpcodeV1::Debug => Some("debug"),
        }
    }

    /// The name under which the opcode is shown.
    pub fn name(self) -> (name: &'static str)
        ensures
            name@ == self.label(),
    {
        match self {
            OpcodeV1::Noop => "Noop",
            OpcodeV1::Push => "Push",
            OpcodeV1::Add => "Add",
            OpcodeV1::Sub => "Sub",
            OpcodeV1::Mul => "Mul",
            OpcodeV1::Div => "Div",
            OpcodeV1::Mod => "Mod",
            OpcodeV1::Jump => "Jump",
            OpcodeV1::JumpIfFalse => "JumpIfFalse",
            OpcodeV1::GT => "GT",
            OpcodeV1::LT => "LT",
            OpcodeV1::GTE => "GTE",
            OpcodeV1::LTE => "LTE",
            OpcodeV1::EQ => "EQ",
            OpcodeV1::Proc => "Proc",
            OpcodeV1::Call => "Call",
            OpcodeV1::Return => "Return",
            OpcodeV1::Store => "Store",
            OpcodeV1::Load => "Load",
            OpcodeV1::Exit => "Exit",
            OpcodeV1::Debug => "Debug",
        }
    }

    /// The opcodes that have an identifier, each once, in the order of
    /// their identifiers.
    pub fn catalogue() -> (all: [OpcodeV1; 19])
        ensures
            forall|opcode: OpcodeV1| #[trigger] lists(all@, opcode) <==> opcode.byte() is Some,
            forall|i: int, j: int|
                0 <= i < j < 19 ==> all[i].byte().unwrap() < all[j].byte().unwrap(),
    {
        let all = [
            OpcodeV1::Noop,
            OpcodeV1::Push,
            OpcodeV1::Add,
            OpcodeV1::Sub,
            OpcodeV1::Mul,
            OpcodeV1::Div,
            OpcodeV1::Mod,
            OpcodeV1::Jump,
            OpcodeV1::JumpIfFalse,
            OpcodeV1::GT,
            OpcodeV1::LT,
            OpcodeV1::GTE,
            OpcodeV1::LTE,
            OpcodeV1::EQ,
            OpcodeV1::Proc,
            OpcodeV1::Call,
            OpcodeV1::Return,
            OpcodeV1::Exit,
            OpcodeV1::Debug,
        ];
        // The first seventeen identifiers count up from zero, and the last
        // two are the two highest bytes.
        assert forall|opcode: OpcodeV1| opcode.byte() is Some implies #[trigger] lists(
            all@,
            opcode,
        ) by {
            let byte = opcode.byte().unwrap() as int;
            let at = if byte < 0x11 {
                byte
            } else {
                byte - 0xED
            };
            assert(all@[at] == opcode);
        }
        all
    }

    /// Finds the opcode that `chars[from..to]` spells, letter for letter.
    pub fn lookup(chars: &[char], from: usize, to: usize) -> (found: Option<OpcodeV1>)
        requires
            from <= to <= chars@.len(),
        ensures
            found == OpcodeV1::of_word(chars@.subrange(from as int, to as int)),
    {
        let ghost word = chars@.subrange(from as int, to as int);
        let all = OpcodeV1::catalogue();
        let mut i: usize = 0;
        while i < 19
            invariant
                i <= 19,
                from <= to <= chars@.len(),
                word == chars@.subrange(from as int, to as int),
                forall|j: int| 0 <= j < i ==> (#[trigger] all[j]).word() != Some(word),
                forall|opcode: OpcodeV1| #[trigger] lists(all@, opcode) <==> opcode.byte() is Some,
            decreases 19 - i,
        {
            if let Some(mnemonic) = all[i].mnemonic() {
                if spells(chars, from, to, mnemonic) {
                    proof {
                        lemma_of_word(all[i as int]);
                    }
                    return Some(all[i]);
                }
            }
            i += 1;
        }
        assert forall|opcode: OpcodeV1| opcode.word() != Some(word) by {
            if opcode.word() is Some {
                assert(lists(all@, opcode));
            }
        }
        None
    }
}

impl TryFrom<u8> for OpcodeV1 {
    type Error = BytecodeError;

    /// Reads an opcode from its identifier. A byte that identifies no opcode
    /// is handed back inside the fault.
    fn try_from(opcode: u8) -> (result: Result<Self, Self::Error>) {
        let all = OpcodeV1::catalogue();
        let mut i: usize = 0;
        while i < 19
            invariant
                i <= 19,
                forall|j: int| 0 <= j < i ==> (#[trigger] all[j]).byte() != Some(opcode),
                forall|known: OpcodeV1| #[trigger] lists(all@, known) <==> known.byte() is Some,
            decreases 19 - i,
        {
            if all[i].to_byte() == Some(opcode) {
                proof {
                    lemma_of_byte(all[i as int]);
                }
                return Ok(all[i]);
            }
            i += 1;
        }
        assert forall|known: OpcodeV1| known.byte() != Some(opcode) by {
            if known.byte() is Some {
                assert(lists(all@, known));
            }
        }
        Err((BytecodeErrorKind::InvalidOpcode(opcode), None))
    }
}

impl vstd::std_specs::convert::TryFromSpecImpl<u8> for OpcodeV1 {
    open spec fn obeys_try_from_spec() -> bool {
        true
    }

    open spec fn try_from_spec(opcode: u8) -> Result<Self, Self::Error> {
        match OpcodeV1::of_byte(opcode) {
            Some(found) => Ok(found),
            None => Err((BytecodeErrorKind::InvalidOpcode(opcode), None)),
        }
    }
}

impl<'a> TryFrom<&'a str> for OpcodeV1 {
    type Error = BytecodeError;

    /// Reads an opcode from its mnemonic, written in lower case. A word that
    /// is no mnemonic is handed back inside the fault.
    fn try_from(opcode: &'a str) -> (result: Result<Self, Self::Error>)
        ensures
            match OpcodeV1::of_word(opcode@) {
                Some(found) => result == Ok::<OpcodeV1, BytecodeError>(found),
                None => result matches Err((BytecodeErrorKind::InvalidOpcode2(word), None))
                    && word@ == opcode@,
            },
    {
        let chars = to_chars(opcode);
        assert(chars@.subrange(0, chars@.len() as int) =~= chars@);
        match OpcodeV1::lookup(chars.as_slice(), 0, chars.len()) {
            Some(known) => Ok(known),
            None => Err((BytecodeErrorKind::InvalidOpcode2(String::from_str(opcode)), None)),
        }
    }
}

/// The fault of this conversion holds a `String`, and a specification
/// cannot name the string that will be made: the contract stands on
/// `try_from` itself.
impl<'a> vstd::std_specs::convert::TryFromSpecImpl<&'a str> for OpcodeV1 {
    open spec fn obeys_try_from_spec() -> bool {
        false
    }

    open spec fn try_from_spec(opcode: &'a str) -> Result<Self, Self::Error> {
        arbitrary()
    }
}

/// Reading an identifier back gives the opcode it was taken from, so no two
/// opcodes share an identifier.
pub proof fn lemma_of_byte(opcode: OpcodeV1)
    requires
        opcode.byte() is Some,
    ensures
        OpcodeV1::of_byte(opcode.byte().unwrap()) == Some(opcode),
{
    let found = choose|other: OpcodeV1| other.byte() == opcode.byte();
    assert(found.byte() == opcode.byte());
}

/// An opcode read from a byte has that byte as its identifier.
pub proof fn lemma_byte_of(byte: u8)
    ensures
        OpcodeV1::of_byte(byte) matches Some(opcode) ==> opcode.byte() == Some(byte),
{
}

/// The bytes that identify an opcode are those up to 0x10 and the two
/// highest, 0xFE and 0xFF: every other byte identifies none.
pub proof fn lemma_identifiers(byte: u8)
    ensures
        OpcodeV1::of_byte(byte) is Some <==> byte <= 0x10 || byte >= 0xFE,
        OpcodeV1::of_byte(byte) matches Some(opcode) ==> opcode != OpcodeV1::Store && opcode
            != OpcodeV1::Load,
{
    if byte <= 0x10 || byte >= 0xFE {
        assert(OpcodeV1::Noop.byte() == Some(0x00u8));
        assert(OpcodeV1::Push.byte() == Some(0x01u8));
        assert(OpcodeV1::Add.byte() == Some(0x02u8));
        assert(OpcodeV1::Sub.byte() == Some(0x03u8));
        assert(OpcodeV1::Mul.byte() == Some(0x04u8));
        assert(OpcodeV1::Div.byte() == Some(0x05u8));
        assert(OpcodeV1::Mod.byte() == Some(0x06u8));
        assert(OpcodeV1::Jump.byte() == Some(0x07u8));
        assert(OpcodeV1::JumpIfFalse.byte() == Some(0x08u8));
        assert(OpcodeV1::GT.byte() == Some(0x09u8));
        assert(OpcodeV1::LT.byte() == Some(0x0Au8));
        assert(OpcodeV1::GTE.byte() == Some(0x0Bu8));
        assert(OpcodeV1::LTE.byte() == Some(0x0Cu8));
        assert(OpcodeV1::EQ.byte() == Some(0x0Du8));
        assert(OpcodeV1::Proc.byte() == Some(0x0Eu8));
        assert(OpcodeV1::Call.byte() == Some(0x0Fu8));
        assert(OpcodeV1::Return.byte() == Some(0x10u8));
        assert(OpcodeV1::Exit.byte() == Some(0xFEu8));
        assert(OpcodeV1::Debug.byte() == Some(0xFFu8));
    }
}

/// Reading a mnemonic back gives the opcode it was taken from, so no two
/// opcodes share a mnemonic.
pub proof fn lemma_of_word(opcode: OpcodeV1)
    requires
        opcode.word() is Some,
    ensures
        OpcodeV1::of_word(opcode.word().unwrap()) == Some(opcode),
{
    lemma_words_differ();
    let found = choose|other: OpcodeV1| other.word() == opcode.word();
    assert(found.word() == opcode.word());
}

/// The opcodes that have an identifier are those that have a mnemonic.
pub proof fn lemma_listed(opcode: OpcodeV1)
    ensures
        opcode.byte() is Some <==> opcode.word() is Some,
{
}

/// Each mnemonic has a length and a pair of letters that, taken together,
/// no other mnemonic has.
proof fn lemma_words_differ()
    ensures
        forall|a: OpcodeV1, b: OpcodeV1| a.word() is Some && a.word() == b.word() ==> a == b,
{
    reveal_strlit("noop");
    reveal_strlit("push");
    reveal_strlit("add");
    reveal_strlit("sub");
    reveal_strlit("mul");
    reveal_strlit("div");
    reveal_strlit("mod");
    reveal_strlit("jump");
    reveal_strlit("jump_if_false");
    reveal_strlit("gt");
    reveal_strlit("lt");
    reveal_strlit("gte");
    reveal_strlit("lte");
    reveal_strlit("eq");
    reveal_strlit("proc");
    reveal_strlit("call");
    reveal_strlit("return");
    reveal_strlit("exit");
    reveal_strlit("debug");
    assert forall|a: OpcodeV1, b: OpcodeV1| a.word() is Some && a.word() == b.word() implies a
        == b by {
        let w = a.word().unwrap();
        let v = b.word().unwrap();
        assert(w.len() == v.len());
        assert(w[0] == v[0]);
        assert(w[1] == v[1]);
        if w.len() > 2 {
            assert(w[2] == v[2]);
        }
    }
}

/// One instruction: an opcode and, where the opcode takes one, its operand.
///
/// A pointer operand is held in the same 64 bits as a value operand, read
/// without a sign.
#[derive(Debug, Clone, Copy, PartialEq, Eq, Structural)]
pub struct Op {
    pub opcode: OpcodeV1,
    pub operand: Option<Value>,
}

impl Op {
    /// An instruction has the operand its opcode asks for, and no other.
    pub open spec fn well_formed(self) -> bool {
        self.operand.is_some() == self.opcode.has_operand()
    }

    /// Puts an opcode and an operand together, as they are.
    pub fn new(opcode: OpcodeV1, operand: Option<Value>) -> (op: Self)
        ensures
            op.opcode == opcode,
            op.operand == operand,
    {
        Self { opcode, operand }
    }

    /// Puts an opcode and an operand together if they go together: the
    /// operand is there exactly where the opcode takes one.
    pub fn checked(opcode: OpcodeV1, operand: Option<Value>) -> (made: Option<Self>)
        ensures
            made == if operand.is_some() == opcode.has_operand() {
                Some(Op { opcode, operand })
            } else {
                None
            },
    {
        if operand.is_some() == opcode.takes_operand() {
            Some(Self { opcode, operand })
        } else {
            None
        }
    }

    /// Whether the instruction has the operand its opcode asks for, and no
    /// other.
    pub fn is_well_formed(&self) -> (well: bool)
        ensures
            well == self.well_formed(),
    {
        self.operand.is_some() == self.opcode.takes_operand()
    }
}

} // verus!
