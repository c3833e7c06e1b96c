//! The binary form of an instruction stream.
//!
//! A stream is the instructions one after another, with no header and no
//! lengths. Each is one opcode identifier and, where the opcode takes an
//! operand, the eight bytes of the operand, lowest first.
//!
//! Only an opcode that has an identifier can stand in a stream. Encoding an
//! instruction whose opcode has none is a fault, and no stream decodes to
//! one.

use vstd::prelude::*;

use crate::error::{BytecodeError, BytecodeErrorKind};
use crate::opcode::{lemma_of_byte, Op, OpcodeV1, OperandKind};
use crate::vm::Instructions;
use crate::{Pointer, Value};

verus! {

/// The bytes of an encoded instruction stream.
#[derive(Debug)]
pub struct RawBytes(pub Vec<u8>);

impl View for RawBytes {
    type V = Seq<u8>;

    open spec fn view(&self) -> Seq<u8> {
        self.0@
    }
}

/// The pointer that shares its 64 bits with a value: the value itself where
/// it is not negative, and 2^64 more than it where it is.
pub open spec fn pointer_of(value: Value) -> Pointer {
    if value >= 0 {
        value as Pointer
    } else {
        (value + 0x1_0000_0000_0000_0000) as Pointer
    }
}

/// The value that shares its 64 bits with a pointer.
pub open spec fn value_of(pointer: Pointer) -> Value {
    if pointer < 0x8000_0000_0000_0000 {
        pointer as Value
    } else {
        (pointer - 0x1_0000_0000_0000_0000) as Value
    }
}

/// The `count` lowest digits of a number written in base 256, lowest first.
/// Quotients are rounded down, so a negative number has the digits of its
/// two's complement.
pub open spec fn digits(number: int, count: nat) -> Seq<u8>
    decreases count,
{
    if count == 0 {
        Seq::empty()
    } else {
        seq![(number % 256) as u8] + digits(number / 256, (count - 1) as nat)
    }
}

/// The number that digits in base 256 spell, lowest first.
pub open spec fn spelled(digits: Seq<u8>) -> nat
    decreases digits.len(),
{
    if digits.len() == 0 {
        0
    } else {
        digits[0] as nat + 256 * spelled(digits.skip(1))
    }
}

/// The eight bytes of an operand, lowest first. A negative value ends in
/// bytes of 255, and a pointer below 2^63 in bytes of 0.
pub open spec fn operand_bytes(operand: Value) -> Seq<u8> {
    digits(operand as int, 8)
}

/// The operand that eight bytes spell.
pub open spec fn operand_of_bytes(bytes: Seq<u8>) -> Value
    recommends
        bytes.len() == 8,
{
    value_of(spelled(bytes) as Pointer)
}

/// The bytes of one instruction whose opcode has an identifier and whose
/// operand, if its opcode takes one, is there.
pub open spec fn encode_op(op: Op) -> Seq<u8>
    recommends
        encode_fault(op) is None,
{
    if op.opcode.has_operand() {
        seq![op.opcode.byte().unwrap()] + operand_bytes(op.operand.unwrap())
    } else {
        seq![op.opcode.byte().unwrap()]
    }
}

/// The bytes of a sequence of instructions.
pub open spec fn encode(ops: Seq<Op>) -> Seq<u8>
    decreases ops.len(),
{
    if ops.len() == 0 {
        Seq::empty()
    } else {
        encode_op(ops[0]) + encode(ops.skip(1))
    }
}

/// The fault that keeps an instruction from being encoded, if there is
/// one: its opcode has no identifier, or takes an operand that the
/// instruction lacks. The opcode is looked at first.
pub open spec fn encode_fault(op: Op) -> Option<BytecodeErrorKind> {
    if op.opcode.byte() is None {
        Some(BytecodeErrorKind::OpcodeNotEncodable)
    } else if op.operand is Some {
        None
    } else {
        match op.opcode.operand_kind() {
            OperandKind::Nothing => None,
            OperandKind::Value => Some(BytecodeErrorKind::ValueNotProvided),
            OperandKind::Pointer => Some(BytecodeErrorKind::PointerNotProvided),
        }
    }
}

/// Every instruction can be encoded: its opcode has an identifier, and it
/// has the operand its opcode takes.
pub open spec fn encodable(ops: Seq<Op>) -> bool {
    forall|i: int| 0 <= i < ops.len() ==> encode_fault(#[trigger] ops[i]) is None
}

/// Every instruction has the operand its opcode takes, and no other.
pub open spec fn well_formed(ops: Seq<Op>) -> bool {
    forall|i: int| 0 <= i < ops.len() ==> (#[trigger] ops[i]).well_formed()
}

/// The instructions that a byte stream spells, or the first fault met while
/// reading it from the front.
pub open spec fn decode(bytes: Seq<u8>) -> Result<Seq<Op>, BytecodeErrorKind>
    decreases bytes.len(),
{
    if bytes.len() == 0 {
        Ok(Seq::empty())
    } else {
        match OpcodeV1::of_byte(bytes[0]) {
            None => Err(BytecodeErrorKind::InvalidOpcode(bytes[0])),
            Some(opcode) => if !opcode.has_operand() {
                after(Op { opcode, operand: None }, decode(bytes.skip(1)))
            } else if bytes.len() < 9 {
                Err(BytecodeErrorKind::TruncatedOperand)
            } else {
                after(
                    Op { opcode, operand: Some(operand_of_bytes(bytes.subrange(1, 9))) },
                    decode(bytes.skip(9)),
                )
            },
        }
    }
}

/// An instruction put in front of what the rest of a stream decodes to.
pub open spec fn after(op: Op, rest: Result<Seq<Op>, BytecodeErrorKind>) -> Result<
    Seq<Op>,
    BytecodeErrorKind,
> {
    match rest {
        Ok(ops) => Ok(seq![op] + ops),
        Err(fault) => Err(fault),
    }
}

/// The pointer that shares its 64 bits with a value.
pub fn to_pointer(value: Value) -> (pointer: Pointer)
    ensures
        pointer == pointer_of(value),
{
    if value >= 0 {
        value as u64
    } else {
        ((value - i64::MIN) as u64) + 0x8000_0000_0000_0000
    }
}

/// The value that shares its 64 bits with a pointer.
pub fn to_value(pointer: Pointer) -> (value: Value)
    ensures
        value == value_of(pointer),
{
    if pointer < 0x8000_0000_0000_0000 {
        pointer as i64
    } else {
        ((pointer - 0x8000_0000_0000_0000) as i64) + i64::MIN
    }
}

/// A value and the pointer that shares its bits stand for each other.
pub proof fn lemma_pointer_value(value: Value, pointer: Pointer)
    ensures
        value_of(pointer_of(value)) == value,
        pointer_of(value_of(pointer)) == pointer,
{
}

/// Digits are as many as were asked for.
pub proof fn lemma_digits_len(number: int, count: nat)
    ensures
        digits(number, count).len() == count,
    decreases count,
{
    if count > 0 {
        lemma_digits_len(number / 256, (count - 1) as nat);
    }
}

/// Adding a multiple of 256 to a number moves its quotient by 256 and keeps
/// its remainder.
proof fn lemma_add_multiple(number: int, times: int)
    ensures
        (number + 256 * times) % 256 == number % 256,
        (number + 256 * times) / 256 == number / 256 + times,
{
}

/// The `count` lowest digits of a number do not change when 256^count is
/// added to it.
proof fn lemma_digits_wrap(number: int, count: nat, bound: int)
    requires
        power_of_256(count, bound),
    ensures
        digits(number + bound, count) == digits(number, count),
    decreases count,
{
    if count > 0 {
        let rest = bound / 256;
        lemma_add_multiple(number, rest);
        lemma_digits_wrap(number / 256, (count - 1) as nat, rest);
    }
}

/// Digits spell the number they were taken from where they reach far
/// enough: `bound` is 256^count, and the number lies below it.
proof fn lemma_spelled_digits(value: int, count: nat, bound: int)
    requires
        0 <= value < bound,
        power_of_256(count, bound),
    ensures
        spelled(digits(value, count)) == value,
    decreases count,
{
    if count > 0 {
        let rest = bound / 256;
        lemma_spelled_digits(value / 256, (count - 1) as nat, rest);
        assert(digits(value, count).skip(1) =~= digits(value / 256, (count - 1) as nat));
    }
}

/// 2^64 is 256 raised to 8.
proof fn lemma_power_of_256()
    ensures
        power_of_256(8, 0x1_0000_0000_0000_0000),
{
    reveal_with_fuel(power_of_256, 9);
}

/// Whether `bound` is 256 raised to `count`.
spec fn power_of_256(count: nat, bound: int) -> bool
    decreases count,
{
    if count == 0 {
        bound == 1
    } else {
        bound % 256 == 0 && power_of_256((count - 1) as nat, bound / 256)
    }
}

/// Writes the eight bytes of an operand at the end of `bytes`.
fn push_operand(bytes: &mut Vec<u8>, operand: Value)
    ensures
        final(bytes)@ == old(bytes)@ + operand_bytes(operand),
{
    let unsigned = to_pointer(operand);
    proof {
        lemma_pointer_bytes(operand);
    }
    let mut rest = unsigned;
    let mut written: usize = 0;
    while written < 8
        invariant
            written <= 8,
            old(bytes)@ + operand_bytes(operand) == bytes@ + digits(
                rest as int,
                (8 - written) as nat,
            ),
        decreases 8 - written,
    {
        let ghost before = bytes@;
        bytes.push((rest % 256) as u8);
        assert(before + digits(rest as int, (8 - written) as nat) =~= bytes@ + digits(
            rest as int / 256,
            (8 - written - 1) as nat,
        ));
        rest = rest / 256;
        written += 1;
    }
    assert(bytes@ + digits(rest as int, 0) =~= bytes@);
}

/// Reads the operand whose eight bytes start at `at`.
fn read_operand(bytes: &[u8], at: usize) -> (operand: Value)
    requires
        at + 8 <= bytes@.len(),
    ensures
        operand == operand_of_bytes(bytes@.subrange(at as int, at + 8)),
{
    let ghost field = bytes@.subrange(at as int, at + 8);
    let total = bytes.len();
    let mut read: u64 = 0;
    let mut left: usize = 8;
    while left > 0
        invariant
            at + 8 <= total == bytes@.len(),
            field == bytes@.subrange(at as int, at + 8),
            left <= 8,
            read == spelled(field.skip(left as int)),
            left > 0 ==> read < 0x100_0000_0000_0000,
        decreases left,
    {
        left -= 1;
        let digit = bytes[at + left];
        proof {
            assert(field.skip(left as int).skip(1) =~= field.skip(left + 1));
            assert(field.skip(left as int)[0] == digit);
            lemma_spelled_bound(field.skip(left + 1));
        }
        read = read * 256 + (digit as u64);
        proof {
            lemma_spelled_bound(field.skip(left as int));
        }
    }
    assert(field.skip(0) =~= field);
    to_value(read)
}

/// What up to eight digits spell lies below 256 raised to their count.
proof fn lemma_spelled_bound(digits: Seq<u8>)
    requires
        digits.len() <= 8,
    ensures
        digits.len() <= 7 ==> spelled(digits) < 0x100_0000_0000_0000,
        digits.len() <= 6 ==> spelled(digits) < 0x1_0000_0000_0000,
        digits.len() <= 5 ==> spelled(digits) < 0x100_0000_0000,
        digits.len() <= 4 ==> spelled(digits) < 0x1_0000_0000,
        digits.len() <= 3 ==> spelled(digits) < 0x100_0000,
        digits.len() <= 2 ==> spelled(digits) < 0x1_0000,
        digits.len() <= 1 ==> spelled(digits) < 0x100,
        digits.len() == 0 ==> spelled(digits) == 0,
        spelled(digits) < 0x1_0000_0000_0000_0000,
    decreases digits.len(),
{
    if digits.len() > 0 {
        lemma_spelled_bound(digits.skip(1));
    }
}

/// A value and the pointer that shares its bits have the same eight bytes:
/// those of the value with its sign carried on, those of the pointer with
/// no sign at all.
pub proof fn lemma_pointer_bytes(operand: Value)
    ensures
        operand_bytes(operand) == digits(pointer_of(operand) as int, 8),
{
    lemma_power_of_256();
    lemma_digits_wrap(operand as int, 8, 0x1_0000_0000_0000_0000);
}

/// The eight bytes of an operand spell that operand.
pub proof fn lemma_operand_round_trip(operand: Value)
    ensures
        operand_bytes(operand).len() == 8,
        operand_of_bytes(operand_bytes(operand)) == operand,
{
    lemma_digits_len(operand as int, 8);
    lemma_power_of_256();
    lemma_pointer_bytes(operand);
    lemma_spelled_digits(pointer_of(operand) as int, 8, 0x1_0000_0000_0000_0000);
}

/// Encoding goes instruction by instruction: the bytes of a sequence with
/// one more instruction at its end are the bytes of the sequence and then
/// those of the instruction.
pub proof fn lemma_encode_push(ops: Seq<Op>, op: Op)
    ensures
        encode(ops.push(op)) == encode(ops) + encode_op(op),
    decreases ops.len(),
{
    if ops.len() == 0 {
        assert(ops.push(op).skip(1) =~= Seq::<Op>::empty());
        assert(encode(ops.push(op).skip(1)) =~= Seq::<u8>::empty());
        assert(encode(ops.push(op)) =~= encode_op(op));
        assert(encode(ops) + encode_op(op) =~= encode_op(op));
    } else {
        assert(ops.push(op).skip(1) =~= ops.skip(1).push(op));
        lemma_encode_push(ops.skip(1), op);
        assert(encode(ops.push(op)) =~= encode(ops) + encode_op(op));
    }
}

/// Decoding goes instruction by instruction: a stream that starts with the
/// bytes of well-formed instructions decodes to those instructions and then
/// to what the rest of the stream decodes to, or fails as the rest does.
pub proof fn lemma_decode_prefix(ops: Seq<Op>, rest: Seq<u8>)
    requires
        well_formed(ops),
        encodable(ops),
    ensures
        decode(encode(ops) + rest) == match decode(rest) {
            Ok(more) => Ok::<Seq<Op>, BytecodeErrorKind>(ops + more),
            Err(fault) => Err(fault),
        },
    decreases ops.len(),
{
    if ops.len() == 0 {
        assert(encode(ops) + rest =~= rest);
        if let Ok(more) = decode(rest) {
            assert(ops + more =~= more);
        }
    } else {
        let op = ops[0];
        let tail = ops.skip(1);
        let bytes = encode(ops) + rest;
        assert(op.well_formed() && encode_fault(op) is None);
        assert(well_formed(tail) && encodable(tail)) by {
            assert forall|i: int| 0 <= i < tail.len() implies (#[trigger] tail[i]).well_formed()
                && encode_fault(tail[i]) is None by {
                assert(tail[i] == ops[i + 1]);
            }
        }
        lemma_decode_prefix(tail, rest);
        lemma_of_byte(op.opcode);
        assert(bytes[0] == op.opcode.byte().unwrap());
        if op.opcode.has_operand() {
            let operand = op.operand.unwrap();
            lemma_operand_round_trip(operand);
            assert(bytes.subrange(1, 9) =~= operand_bytes(operand));
            assert(bytes.skip(9) =~= encode(tail) + rest);
        } else {
            assert(bytes.skip(1) =~= encode(tail) + rest);
        }
        if let Ok(more) = decode(rest) {
            assert(seq![op] + (tail + more) =~= ops + more);
        }
    }
}

/// Decoding the bytes of a well-formed sequence of instructions gives that
/// sequence back, instruction for instruction. The instructions are those
/// that have bytes: their opcodes have identifiers.
pub proof fn lemma_decode_encode(ops: Seq<Op>)
    requires
        well_formed(ops),
        encodable(ops),
    ensures
        decode(encode(ops)) == Ok::<Seq<Op>, BytecodeErrorKind>(ops),
{
    lemma_decode_prefix(ops, Seq::empty());
    assert(encode(ops) + Seq::<u8>::empty() =~= encode(ops));
    assert(ops + Seq::<Op>::empty() =~= ops);
}

/// A byte that identifies no opcode, met where an opcode is due, fails the
/// whole stream with that byte: nothing of what stood before it is handed
/// back, whatever stands behind it.
pub proof fn lemma_decode_unknown(ops: Seq<Op>, byte: u8, rest: Seq<u8>)
    requires
        well_formed(ops),
        encodable(ops),
        OpcodeV1::of_byte(byte) is None,
    ensures
        decode(encode(ops) + seq![byte] + rest) == Err::<Seq<Op>, BytecodeErrorKind>(
            BytecodeErrorKind::InvalidOpcode(byte),
        ),
{
    lemma_decode_prefix(ops, seq![byte] + rest);
    assert(encode(ops) + seq![byte] + rest =~= encode(ops) + (seq![byte] + rest));
    assert((seq![byte] + rest)[0] == byte);
}

/// A stream that ends inside an operand, behind the identifier of an opcode
/// that takes one, fails as truncated.
pub proof fn lemma_decode_truncated(ops: Seq<Op>, opcode: OpcodeV1, rest: Seq<u8>)
    requires
        well_formed(ops),
        encodable(ops),
        opcode.byte() is Some,
        opcode.has_operand(),
        rest.len() < 8,
    ensures
        decode(encode(ops) + seq![opcode.byte().unwrap()] + rest) == Err::<
            Seq<Op>,
            BytecodeErrorKind,
        >(BytecodeErrorKind::TruncatedOperand),
{
    let byte = opcode.byte().unwrap();
    lemma_decode_prefix(ops, seq![byte] + rest);
    assert(encode(ops) + seq![byte] + rest =~= encode(ops) + (seq![byte] + rest));
    assert((seq![byte] + rest)[0] == byte);
    lemma_of_byte(opcode);
}

/// What a stream decodes to is well formed and can be encoded: every
/// instruction has an opcode with an identifier, and an operand exactly
/// where that opcode takes one. Encoding it gives the stream back, byte for
/// byte.
pub proof fn lemma_encode_decode(bytes: Seq<u8>)
    ensures
        decode(bytes) matches Ok(ops) ==> well_formed(ops) && encodable(ops) && encode(ops)
            == bytes,
    decreases bytes.len(),
{
    if bytes.len() > 0 {
        if let Some(opcode) = OpcodeV1::of_byte(bytes[0]) {
            let width: int = if opcode.has_operand() {
                9
            } else {
                1
            };
            if bytes.len() >= width {
                lemma_encode_decode(bytes.skip(width));
                if let Ok(rest) = decode(bytes.skip(width)) {
                    let ops = decode(bytes).unwrap();
                    let op = ops[0];
                    assert(ops.skip(1) =~= rest);
                    assert forall|i: int| 0 <= i < ops.len() implies (#[trigger] ops[i]).well_formed()
                        && encode_fault(ops[i]) is None by {
                        if i > 0 {
                            assert(ops[i] == rest[i - 1]);
                        }
                    }
                    if opcode.has_operand() {
                        lemma_bytes_of_operand(bytes.subrange(1, 9));
                    }
                    assert(encode_op(op) + bytes.skip(width) =~= bytes);
                }
            }
        }
    } else {
        assert(encode(Seq::<Op>::empty()) =~= bytes);
    }
}

/// Eight bytes are the bytes of the operand they spell.
pub proof fn lemma_bytes_of_operand(bytes: Seq<u8>)
    requires
        bytes.len() == 8,
    ensures
        operand_bytes(operand_of_bytes(bytes)) == bytes,
{
    lemma_spelled_bound(bytes);
    lemma_pointer_bytes(operand_of_bytes(bytes));
    lemma_digits_of_spelled(bytes);
}

/// Digits are the digits of the number they spell.
proof fn lemma_digits_of_spelled(bytes: Seq<u8>)
    ensures
        digits(spelled(bytes) as int, bytes.len()) == bytes,
    decreases bytes.len(),
{
    if bytes.len() > 0 {
        let rest = bytes.skip(1);
        lemma_digits_of_spelled(rest);
        lemma_add_multiple(bytes[0] as int, spelled(rest) as int);
        assert(seq![bytes[0]] + rest =~= bytes);
    } else {
        assert(digits(0, 0) =~= bytes);
    }
}

impl RawBytes {
    /// Encodes instructions: for each its opcode identifier and, where the
    /// opcode takes an operand, the eight bytes of the operand. An operand
    /// on an opcode that takes none is not written.
    ///
    /// Fails at the first instruction that cannot be encoded, with that
    /// instruction's index as the pointer of the fault: with
    /// `OpcodeNotEncodable` where its opcode has no identifier, and else
    /// with `ValueNotProvided` or `PointerNotProvided` where it lacks the
    /// operand its opcode takes ([`encode_fault`]).
    pub fn encode(ops: &[Op]) -> (result: Result<RawBytes, BytecodeError>)
        ensures
            encodable(ops@) ==> (result matches Ok(raw) && raw@ == encode(ops@)),
            !encodable(ops@) ==> (result matches Err((fault, Some(at))) && at < ops@.len()
                && encode_fault(ops@[at as int]) == Some(fault) && encodable(
                ops@.take(at as int),
            )),
    {
        let mut bytes: Vec<u8> = Vec::new();
        let mut i: usize = 0;
        while i < ops.len()
            invariant
                i <= ops@.len(),
                encodable(ops@.take(i as int)),
                bytes@ == encode(ops@.take(i as int)),
            decreases ops@.len() - i,
        {
            let op = ops[i];
            proof {
                lemma_encode_push(ops@.take(i as int), op);
                assert(ops@.take(i + 1) =~= ops@.take(i as int).push(op));
            }
            match op.opcode.to_byte() {
                Some(identifier) => {
                    bytes.push(identifier);
                },
                None => {
                    return Err((BytecodeErrorKind::OpcodeNotEncodable, Some(i as u64)));
                },
            }
            match op.opcode.kind() {
                OperandKind::Nothing => {
                    assert(bytes@ =~= encode(ops@.take(i as int)) + encode_op(op));
                },
                kind => match op.operand {
                    Some(operand) => {
                        push_operand(&mut bytes, operand);
                        assert(bytes@ =~= encode(ops@.take(i as int)) + encode_op(op));
                    },
                    None => {
                        let fault = match kind {
                            OperandKind::Pointer => BytecodeErrorKind::PointerNotProvided,
                            _ => BytecodeErrorKind::ValueNotProvided,
                        };
                        return Err((fault, Some(i as u64)));
                    },
                },
            }
            i += 1;
        }
        assert(ops@.take(i as int) =~= ops@);
        Ok(RawBytes(bytes))
    }
}

impl Instructions {
    /// Decodes a byte stream from the front: an opcode identifier, then the
    /// eight bytes of the operand where the opcode takes one, and so on to
    /// the end.
    ///
    /// Fails at the first byte that identifies no opcode, or where the
    /// stream ends inside an operand. Nothing of a stream that fails is
    /// handed back.
    pub fn decode(bytes: &[u8]) -> (result: Result<Instructions, BytecodeError>)
        ensures
            match decode(bytes@) {
                Ok(ops) => result matches Ok(instructions) && instructions@ == ops,
                Err(fault) => result matches Err((kind, None)) && kind == fault,
            },
    {
        let mut ops: Vec<Op> = Vec::new();
        let mut index: usize = 0;
        proof {
            assert(bytes@.skip(0) =~= bytes@);
            assert forall|rest: Seq<Op>| #[trigger] (ops@ + rest) == rest by {
                assert(ops@ + rest =~= rest);
            }
        }
        while index < bytes.len()
            invariant
                index <= bytes@.len(),
                decode(bytes@) == match decode(bytes@.skip(index as int)) {
                    Ok(rest) => Ok::<Seq<Op>, BytecodeErrorKind>(ops@ + rest),
                    Err(fault) => Err(fault),
                },
            decreases bytes@.len() - index,
        {
            let ghost left = bytes@.skip(index as int);
            let ghost done = ops@;
            assert(left[0] == bytes@[index as int]);
            let opcode = match OpcodeV1::try_from(bytes[index]) {
                Ok(opcode) => opcode,
                Err(fault) => {
                    return Err(fault);
                },
            };
            let (op, width): (Op, usize) = if opcode.takes_operand() {
                if bytes.len() - index < 9 {
                    return Err((BytecodeErrorKind::TruncatedOperand, None));
                }
                assert(left.subrange(1, 9) =~= bytes@.subrange(index + 1, index + 9));
                (Op::new(opcode, Some(read_operand(bytes, index + 1))), 9)
            } else {
                (Op::new(opcode, None), 1)
            };
            ops.push(op);
            proof {
                assert(left.skip(width as int) =~= bytes@.skip(index + width));
                assert forall|rest: Seq<Op>| done + (seq![op] + rest) == #[trigger] (ops@ + rest) by {
                    assert(done + (seq![op] + rest) =~= ops@ + rest);
                }
            }
            index += width;
        }
        assert(ops@ + Seq::<Op>::empty() =~= ops@);
        Ok(Instructions(ops))
    }
}

impl<'a> From<&'a [u8]> for RawBytes {
    /// Takes a copy of the bytes.
    fn from(bytes: &'a [u8]) -> (raw: Self)
        ensures
            raw@ == bytes@,
    {
        RawBytes(vstd::slice::slice_to_vec(bytes))
    }
}

/// A `RawBytes` owns its bytes, and a specification cannot name the vector
/// that will hold them: the contract stands on `from` itself.
impl<'a> vstd::std_specs::convert::FromSpecImpl<&'a [u8]> for RawBytes {
    open spec fn obeys_from_spec() -> bool {
        false
    }

    open spec fn from_spec(bytes: &'a [u8]) -> Self {
        arbitrary()
    }
}

impl TryFrom<RawBytes> for Instructions {
    type Error = BytecodeError;

    /// Decodes a byte stream ([`Instructions::decode`]).
    fn try_from(raw_bytes: RawBytes) -> (result: Result<Self, Self::Error>)
        ensures
            match decode(raw_bytes@) {
                Ok(ops) => result matches Ok(instructions) && instructions@ == ops,
                Err(fault) => result matches Err((kind, None)) && kind == fault,
            },
    {
        Instructions::decode(raw_bytes.0.as_slice())
    }
}

/// As for `RawBytes`: the contract stands on `try_from` itself.
impl vstd::std_specs::convert::TryFromSpecImpl<RawBytes> for Instructions {
    open spec fn obeys_try_from_spec() -> bool {
        false
    }

    open spec fn try_from_spec(raw_bytes: RawBytes) -> Result<Self, Self::Error> {
        arbitrary()
    }
}

impl TryFrom<Instructions> for RawBytes {
    type Error = BytecodeError;

    /// Encodes instructions ([`RawBytes::encode`]).
    fn try_from(instructions: Instructions) -> (result: Result<Self, Self::Error>)
        ensures
            encodable(instructions@) ==> (result matches Ok(raw) && raw@ == encode(instructions@)),
            !encodable(instructions@) ==> (result matches Err((fault, Some(at))) && at
                < instructions@.len() && encode_fault(instructions@[at as int]) == Some(fault)
                && encodable(instructions@.take(at as int))),
    {
        RawBytes::encode(instructions.0.as_slice())
    }
}

/// As above: the contract stands on `try_from` itself.
impl vstd::std_specs::convert::TryFromSpecImpl<Instructions> for RawBytes {
    open spec fn obeys_try_from_spec() -> bool {
        false
    }

    open spec fn try_from_spec(instructions: Instructions) -> Result<Self, Self::Error> {
        arbitrary()
    }
}

} // verus!
