//! Programs and the engine that runs them.

use std::collections::HashMap;
use vstd::prelude::*;

use crate::error::{BytecodeError, BytecodeErrorKind};
use crate::machine::{
    binary, execute, execute_binary, execute_debug, execute_jump_if_false, forward, initial,
    is_binary, magnitude, quotient, remainder, run, step, without_top, wrap, Snapshot, State,
    Status, DISCARD_ALL,
};
use crate::opcode::{Op, OpcodeV1};
use crate::rawbytes::{pointer_of, to_pointer};
use crate::{Pointer, Value};

verus! {

/// A sequence of instructions, as decoded or assembled. It may be empty.
#[derive(Debug)]
pub struct Instructions(pub Vec<Op>);

impl Clone for Instructions {
    /// The same instructions, in the same order.
    fn clone(&self) -> (copy: Self)
        ensures
            copy@ == self@,
    {
        let mut ops: Vec<Op> = Vec::new();
        let mut i: usize = 0;
        while i < self.0.len()
            invariant
                i <= self.0@.len(),
                ops@ == self.0@.take(i as int),
            decreases self.0@.len() - i,
        {
            ops.push(self.0[i]);
            assert(self.0@.take(i + 1) =~= self.0@.take(i as int).push(self.0@[i as int]));
            i += 1;
        }
        assert(self.0@.take(i as int) =~= self.0@);
        Instructions(ops)
    }
}

impl Default for Instructions {
    /// No instructions.
    fn default() -> (instructions: Self)
        ensures
            instructions@ == Seq::<Op>::empty(),
    {
        Instructions(Vec::new())
    }
}

impl View for Instructions {
    type V = Seq<Op>;

    open spec fn view(&self) -> Seq<Op> {
        self.0@
    }
}

/// A sequence of at least one instruction, fixed once it is made.
#[derive(Debug)]
pub struct Program(Instructions);

impl Clone for Program {
    /// The same program.
    fn clone(&self) -> (copy: Self)
        ensures
            copy@ == self@,
    {
        proof {
            use_type_invariant(self);
        }
        Program(self.0.clone())
    }
}

impl View for Program {
    type V = Seq<Op>;

    closed spec fn view(&self) -> Seq<Op> {
        self.0@
    }
}

impl Program {
    #[verifier::type_invariant]
    spec fn holds_an_instruction(self) -> bool {
        self.0@.len() > 0
    }

    /// Makes a program of the instructions given, which must be at least
    /// one.
    pub fn new(instructions: Instructions) -> (result: Result<Program, BytecodeError>)
        ensures
            instructions@.len() > 0 ==> (result matches Ok(program) && program@ == instructions@),
            instructions@.len() == 0 ==> result == Err::<Program, BytecodeError>(
                (BytecodeErrorKind::ProgramIsEmpty, None),
            ),
    {
        if instructions.0.len() == 0 {
            Err((BytecodeErrorKind::ProgramIsEmpty, None))
        } else {
            Ok(Program(instructions))
        }
    }

    /// The instructions of the program.
    pub fn instructions(&self) -> (instructions: &Instructions)
        ensures
            instructions@ == self@,
    {
        &self.0
    }

    /// How many instructions the program has: never zero.
    pub fn len(&self) -> (len: usize)
        ensures
            len == self@.len(),
            len > 0,
    {
        proof {
            use_type_invariant(self);
        }
        self.0.0.len()
    }
}

/// The value stack of an engine: the last value is its top.
#[derive(Debug)]
pub struct Stack(pub Vec<Value>);

impl View for Stack {
    type V = Seq<Value>;

    open spec fn view(&self) -> Seq<Value> {
        self.0@
    }
}

impl Default for Stack {
    /// An empty stack.
    fn default() -> (stack: Self)
        ensures
            stack@ == Seq::<Value>::empty(),
    {
        Stack(Vec::new())
    }
}

impl Stack {
    /// Puts a value on top.
    pub fn push(&mut self, value: Value)
        ensures
            final(self)@ == old(self)@.push(value),
    {
        self.0.push(value);
    }

    /// Takes the top value off. An empty stack stays empty and gives the
    /// fault `StackIsEmpty`, without a pointer: the stack knows of none.
    pub fn pop(&mut self) -> (result: Result<Value, BytecodeError>)
        ensures
            old(self)@.len() > 0 ==> result == Ok::<Value, BytecodeError>(old(self)@.last())
                && final(self)@ == old(self)@.drop_last(),
            old(self)@.len() == 0 ==> result == Err::<Value, BytecodeError>(
                (BytecodeErrorKind::StackIsEmpty, None),
            ) && final(self)@ == old(self)@,
    {
        match self.0.pop() {
            Some(value) => Ok(value),
            None => Err((BytecodeErrorKind::StackIsEmpty, None)),
        }
    }
}

/// Where a pending call returns to.
#[derive(Debug, Clone, Copy)]
struct CallStackFrame {
    pointer: Pointer,
}

/// What a `Debug` instruction recorded: where it stood and the stack it
/// saw, bottom first.
#[derive(Debug)]
pub struct TraceRecord {
    pub pointer: Pointer,
    pub stack: Vec<Value>,
}

impl View for TraceRecord {
    type V = Snapshot;

    open spec fn view(&self) -> Snapshot {
        Snapshot { pointer: self.pointer, stack: self.stack@ }
    }
}

/// Whether a run can go on.
#[derive(Debug, Clone, Copy, PartialEq, Eq, Structural)]
pub enum Progress {
    /// The next instruction can be fetched.
    Running,
    /// The run has ended as it should.
    Halted,
}

/// How a run stands according to what the engine handed back.
pub open spec fn status_of(result: Result<Progress, BytecodeError>) -> Status {
    match result {
        Ok(Progress::Running) => Status::Running,
        Ok(Progress::Halted) => Status::Halted,
        Err((kind, _)) => Status::Faulted(kind),
    }
}

/// Whether the engine handed back what the model asks for: the state and
/// the status of `outcome`, and with a fault the pointer `at`.
pub open spec fn agrees(
    outcome: (State, Status),
    after: State,
    result: Result<Progress, BytecodeError>,
    at: Pointer,
) -> bool {
    &&& after == outcome.0
    &&& status_of(result) == outcome.1
    &&& result matches Err((_, found)) ==> found == Some(at)
}

/// A number that fits in 64 bits stands for itself, and one that misses
/// the range by less than 2^64 stands for the value 2^64 away from it.
proof fn lemma_wrap(number: int)
    ensures
        Value::MIN <= number <= Value::MAX ==> wrap(number) == number,
        Value::MAX < number <= Value::MAX + 0x1_0000_0000_0000_0000 ==> wrap(number) == number
            - 0x1_0000_0000_0000_0000,
        Value::MIN - 0x1_0000_0000_0000_0000 <= number < Value::MIN ==> wrap(number) == number
            + 0x1_0000_0000_0000_0000,
{
}

/// The quotient of two values, rounded towards zero and taken in 64 bits.
fn divide(lower: Value, upper: Value) -> (result: Value)
    requires
        upper != 0,
    ensures
        result == wrap(quotient(lower as int, upper as int)),
{
    let ghost size = magnitude(lower as int) / magnitude(upper as int);
    proof {
        vstd::arithmetic::div_mod::lemma_div_nonincreasing(
            magnitude(lower as int),
            magnitude(upper as int),
        );
        vstd::arithmetic::div_mod::lemma_div_pos_is_pos(
            magnitude(lower as int),
            magnitude(upper as int),
        );
        assert(0 <= size <= magnitude(lower as int));
        lemma_wrap(quotient(lower as int, upper as int));
    }
    if lower == i64::MIN && upper == -1 {
        assert(size == magnitude(lower as int));
        i64::MIN
    } else {
        let found = lower.checked_div(upper);
        proof {
            if upper == 1 {
                assert(size == magnitude(lower as int));
            } else if lower == i64::MIN {
                assert(magnitude(upper as int) >= 2);
                vstd::arithmetic::div_mod::lemma_div_is_ordered_by_denominator(
                    magnitude(lower as int),
                    2,
                    magnitude(upper as int),
                );
            }
            assert(size <= i64::MAX || (lower == i64::MIN && upper == 1));
            assert(lower as int * -1 == -(lower as int));
            assert(upper as int * -1 == -(upper as int));
            if lower == 0 {
                assert(size == 0);
            }
            assert(found == Some(quotient(lower as int, upper as int) as Value));
        }
        match found {
            Some(result) => result,
            None => 0,
        }
    }
}

/// The remainder of the division of two values whose quotient is rounded
/// towards zero.
fn modulo(lower: Value, upper: Value) -> (result: Value)
    requires
        upper != 0,
    ensures
        result == remainder(lower as int, upper as int),
{
    let ghost size = magnitude(lower as int) % magnitude(upper as int);
    proof {
        assert(0 <= size < magnitude(upper as int));
    }
    if upper == -1 {
        assert(size == 0);
        0
    } else {
        let found = lower.checked_rem(upper);
        proof {
            assert(lower as int * -1 == -(lower as int));
            assert(upper as int * -1 == -(upper as int));
            if lower == 0 {
                vstd::arithmetic::div_mod::lemma_small_mod(0, magnitude(upper as int) as nat);
            }
            assert(found == Some(remainder(lower as int, upper as int) as Value));
        }
        match found {
            Some(result) => result,
            None => 0,
        }
    }
}

/// What a binary opcode makes of two values ([`binary`]).
fn binary_result(opcode: OpcodeV1, lower: Value, upper: Value) -> (result: Option<Value>)
    requires
        is_binary(opcode),
    ensures
        result == binary(opcode, lower, upper),
{
    proof {
        lemma_wrap(lower + upper);
        lemma_wrap(lower - upper);
    }
    match opcode {
        OpcodeV1::Add => Some(lower.wrapping_add(upper)),
        OpcodeV1::Sub => Some(lower.wrapping_sub(upper)),
        OpcodeV1::Mul => Some(lower.wrapping_mul(upper)),
        OpcodeV1::Div => {
            if upper == 0 {
                None
            } else {
                Some(divide(lower, upper))
            }
        },
        OpcodeV1::Mod => {
            if upper == 0 {
                None
            } else {
                Some(modulo(lower, upper))
            }
        },
        OpcodeV1::GT => Some(if lower > upper { 1 } else { 0 }),
        OpcodeV1::LT => Some(if lower < upper { 1 } else { 0 }),
        OpcodeV1::GTE => Some(if lower >= upper { 1 } else { 0 }),
        OpcodeV1::LTE => Some(if lower <= upper { 1 } else { 0 }),
        _ => Some(if lower == upper { 1 } else { 0 }),
    }
}

/// The execution engine: a program and the state of its run.
#[derive(Debug)]
pub struct Vm {
    program: Program,
    pointer: Pointer,
    stack: Stack,
    call_stack: Vec<CallStackFrame>,
    store: HashMap<Pointer, Value>,
    trace: Vec<TraceRecord>,
}

/// What the records of a trace stand for.
pub open spec fn snapshots(records: Seq<TraceRecord>) -> Seq<Snapshot> {
    records.map_values(|record: TraceRecord| record@)
}

impl View for Vm {
    type V = State;

    closed spec fn view(&self) -> State {
        State {
            pointer: self.pointer,
            stack: self.stack@,
            calls: self.call_stack@.map_values(|frame: CallStackFrame| frame.pointer),
            store: self.store@,
            trace: snapshots(self.trace@),
        }
    }
}

impl Vm {
    /// The instructions of the program that the engine runs.
    pub closed spec fn code(&self) -> Seq<Op> {
        self.program@
    }

    /// An engine for the program, in the state in which every run starts.
    pub fn new(program: Program) -> (vm: Self)
        ensures
            vm.code() == program@,
            vm@ == initial(),
    {
        let vm = Vm {
            program,
            pointer: 0,
            stack: Stack(Vec::new()),
            call_stack: Vec::new(),
            store: HashMap::new(),
            trace: Vec::new(),
        };
        assert(vm@.stack =~= initial().stack);
        assert(vm@.calls =~= initial().calls);
        assert(vm@.store =~= initial().store);
        assert(vm@.trace =~= initial().trace);
        vm
    }

    /// The program that the engine runs.
    pub fn program(&self) -> (program: &Program)
        ensures
            program@ == self.code(),
    {
        &self.program
    }

    /// The instruction that the next step fetches.
    pub fn pointer(&self) -> (pointer: Pointer)
        ensures
            pointer == self@.pointer,
    {
        self.pointer
    }

    /// The value stack.
    pub fn stack(&self) -> (stack: &Stack)
        ensures
            stack@ == self@.stack,
    {
        &self.stack
    }

    /// The pointers that pending calls return to, the latest last.
    pub fn return_pointers(&self) -> (pointers: Vec<Pointer>)
        ensures
            pointers@ == self@.calls,
    {
        let mut pointers: Vec<Pointer> = Vec::new();
        let mut i: usize = 0;
        while i < self.call_stack.len()
            invariant
                i <= self.call_stack@.len(),
                pointers@ == self@.calls.take(i as int),
            decreases self.call_stack@.len() - i,
        {
            pointers.push(self.call_stack[i].pointer);
            assert(self@.calls.take(i + 1) =~= self@.calls.take(i as int).push(
                self.call_stack@[i as int].pointer,
            ));
            i += 1;
        }
        assert(self@.calls.take(i as int) =~= self@.calls);
        pointers
    }

    /// What is kept in the store under a key, if anything is.
    pub fn stored(&self, key: Pointer) -> (value: Option<Value>)
        ensures
            value == if self@.store.contains_key(key) {
                Some(self@.store[key])
            } else {
                None
            },
    {
        match self.store.get(&key) {
            Some(value) => Some(*value),
            None => None,
        }
    }

    /// What `Debug` instructions have recorded so far, oldest first.
    pub fn trace(&self) -> (records: &Vec<TraceRecord>)
        ensures
            snapshots(records@) == self@.trace,
    {
        &self.trace
    }

    /// The value operand of an instruction, or the fault `ValueNotProvided`
    /// at `pointer`.
    fn get_operand(&self, op: &Op, pointer: Pointer) -> (result: Result<Value, BytecodeError>)
        ensures
            result == match op.operand {
                Some(value) => Ok::<Value, BytecodeError>(value),
                None => Err((BytecodeErrorKind::ValueNotProvided, Some(pointer))),
            },
    {
        match op.operand {
            Some(value) => Ok(value),
            None => Err((BytecodeErrorKind::ValueNotProvided, Some(pointer))),
        }
    }

    /// The pointer operand of an instruction, or the fault
    /// `PointerNotProvided` at `pointer`.
    fn get_pointer(&self, op: &Op, pointer: Pointer) -> (result: Result<Pointer, BytecodeError>)
        ensures
            result == match op.operand {
                Some(value) => Ok::<Pointer, BytecodeError>(pointer_of(value)),
                None => Err((BytecodeErrorKind::PointerNotProvided, Some(pointer))),
            },
    {
        match op.operand {
            Some(value) => Ok(to_pointer(value)),
            None => Err((BytecodeErrorKind::PointerNotProvided, Some(pointer))),
        }
    }

    /// Takes the top value off the stack; the fault of an empty stack
    /// carries the pointer of the instruction that asked.
    fn pop(&mut self) -> (result: Result<Value, BytecodeError>)
        ensures
            final(self).code() == old(self).code(),
            old(self)@.stack.len() > 0 ==> result == Ok::<Value, BytecodeError>(
                old(self)@.stack.last(),
            ) && final(self)@ == (State { stack: without_top(old(self)@.stack, 1), ..old(self)@ }),
            old(self)@.stack.len() == 0 ==> result == Err::<Value, BytecodeError>(
                (BytecodeErrorKind::StackIsEmpty, Some(old(self)@.pointer)),
            ) && final(self)@ == old(self)@,
    {
        match self.stack.pop() {
            Ok(value) => {
                assert(self@ =~= (State { stack: without_top(old(self)@.stack, 1), ..old(self)@ }));
                Ok(value)
            },
            Err((kind, _)) => Err((kind, Some(self.pointer))),
        }
    }

    /// Moves on to the next instruction.
    fn advance(&mut self) -> (result: Result<Progress, BytecodeError>)
        ensures
            final(self).code() == old(self).code(),
            final(self)@ == (State { pointer: forward(old(self)@.pointer, 1), ..old(self)@ }),
            result == Ok::<Progress, BytecodeError>(Progress::Running),
    {
        self.pointer = self.pointer.saturating_add(1);
        Ok(Progress::Running)
    }

    /// Moves on to the instruction at `target`.
    fn jump(&mut self, target: Pointer) -> (result: Result<Progress, BytecodeError>)
        ensures
            final(self).code() == old(self).code(),
            final(self)@ == (State { pointer: target, ..old(self)@ }),
            result == Ok::<Progress, BytecodeError>(Progress::Running),
    {
        self.pointer = target;
        Ok(Progress::Running)
    }

    /// Executes a binary opcode ([`execute_binary`]).
    fn execute_binary(&mut self, opcode: OpcodeV1) -> (result: Result<Progress, BytecodeError>)
        requires
            is_binary(opcode),
        ensures
            final(self).code() == old(self).code(),
            agrees(execute_binary(opcode, old(self)@), final(self)@, result, old(self)@.pointer),
    {
        let upper = self.pop()?;
        assert(old(self)@.stack.len() == 1 ==> self@.stack =~= Seq::<Value>::empty());
        let lower = self.pop()?;
        assert(self@.stack =~= without_top(old(self)@.stack, 2));
        match binary_result(opcode, lower, upper) {
            Some(value) => {
                self.stack.push(value);
                self.advance()
            },
            None => Err((BytecodeErrorKind::DivisionByZero, Some(self.pointer))),
        }
    }

    /// Executes `JumpIfFalse` ([`execute_jump_if_false`]).
    fn execute_jump_if_false(&mut self, op: &Op) -> (result: Result<Progress, BytecodeError>)
        ensures
            final(self).code() == old(self).code(),
            agrees(execute_jump_if_false(*op, old(self)@), final(self)@, result, old(self)@.pointer),
    {
        let condition = self.pop()?;
        let target = self.get_pointer(op, self.pointer)?;
        if condition == 0 {
            self.jump(target)
        } else {
            self.advance()
        }
    }

    /// Executes `Debug` ([`execute_debug`]).
    #[verifier::loop_isolation(false)]
    fn execute_debug(&mut self, op: &Op) -> (result: Result<Progress, BytecodeError>)
        ensures
            final(self).code() == old(self).code(),
            agrees(execute_debug(*op, old(self)@), final(self)@, result, old(self)@.pointer),
    {
        let record = TraceRecord {
            pointer: self.pointer,
            stack: vstd::slice::slice_to_vec(self.stack.0.as_slice()),
        };
        self.trace.push(record);
        let ghost seen = State {
            trace: old(self)@.trace.push(
                Snapshot { pointer: old(self)@.pointer, stack: old(self)@.stack },
            ),
            ..old(self)@
        };
        assert(self@.trace =~= seen.trace);
        let count = self.get_operand(op, self.pointer)?;
        if count == DISCARD_ALL {
            self.stack.0.clear();
            return self.advance();
        }
        let mut discarded: Value = 0;
        assert(without_top(seen.stack, 0) =~= seen.stack);
        while discarded < count
            invariant
                self.code() == old(self).code(),
                0 <= discarded <= seen.stack.len(),
                count <= 0 ==> discarded == 0,
                count > 0 ==> discarded <= count,
                self@ == (State { stack: without_top(seen.stack, discarded as int), ..seen }),
            decreases count - discarded,
        {
            match self.pop() {
                Ok(_) => {},
                Err(fault) => {
                    assert(discarded == seen.stack.len());
                    assert(self@.stack =~= Seq::<Value>::empty());
                    return Err(fault);
                },
            }
            assert(self@.stack =~= without_top(seen.stack, discarded + 1));
            discarded += 1;
        }
        assert(count <= 0 ==> self@.stack =~= seen.stack);
        self.advance()
    }

    /// Executes `Store`.
    fn execute_store(&mut self, op: &Op) -> (result: Result<Progress, BytecodeError>)
        requires
            op.opcode == OpcodeV1::Store,
        ensures
            final(self).code() == old(self).code(),
            agrees(execute(*op, old(self)@), final(self)@, result, old(self)@.pointer),
    {
        let value = self.pop()?;
        let key = to_pointer(self.get_operand(op, self.pointer)?);
        self.store.insert(key, value);
        self.advance()
    }

    /// Executes `Load`.
    fn execute_load(&mut self, op: &Op) -> (result: Result<Progress, BytecodeError>)
        requires
            op.opcode == OpcodeV1::Load,
        ensures
            final(self).code() == old(self).code(),
            agrees(execute(*op, old(self)@), final(self)@, result, old(self)@.pointer),
    {
        let key = to_pointer(self.get_operand(op, self.pointer)?);
        match self.stored(key) {
            Some(value) => {
                self.stack.push(value);
                self.advance()
            },
            None => Err((BytecodeErrorKind::StoreIndexNotFound(key), Some(self.pointer))),
        }
    }

    /// Executes one instruction on the state as it stands ([`execute`]),
    /// whether or not it is the one under the pointer. A fault carries the
    /// pointer at which the engine stood.
    pub fn execute_op(&mut self, op: &Op) -> (result: Result<Progress, BytecodeError>)
        ensures
            final(self).code() == old(self).code(),
            agrees(execute(*op, old(self)@), final(self)@, result, old(self)@.pointer),
    {
        match op.opcode {
            OpcodeV1::Noop => self.advance(),
            OpcodeV1::Push => {
                let value = self.get_operand(op, self.pointer)?;
                self.stack.push(value);
                self.advance()
            },
            OpcodeV1::Jump => {
                let target = self.get_pointer(op, self.pointer)?;
                self.jump(target)
            },
            OpcodeV1::JumpIfFalse => self.execute_jump_if_false(op),
            OpcodeV1::Proc => {
                let length = self.get_pointer(op, self.pointer)?;
                let target = self.pointer.saturating_add(length).saturating_add(1);
                self.jump(target)
            },
            OpcodeV1::Call => {
                self.call_stack.push(CallStackFrame { pointer: self.pointer.saturating_add(1) });
                assert(self@.calls =~= old(self)@.calls.push(forward(old(self)@.pointer, 1)));
                let target = self.get_pointer(op, self.pointer)?;
                self.jump(target)
            },
            OpcodeV1::Return => {
                match self.call_stack.pop() {
                    Some(frame) => {
                        assert(self@.calls =~= old(self)@.calls.drop_last());
                        self.jump(frame.pointer)
                    },
                    None => Err((BytecodeErrorKind::CallStackIsEmpty, Some(self.pointer))),
                }
            },
            OpcodeV1::Store => self.execute_store(op),
            OpcodeV1::Load => self.execute_load(op),
            OpcodeV1::Exit => Ok(Progress::Halted),
            OpcodeV1::Debug => self.execute_debug(op),
            opcode => self.execute_binary(opcode),
        }
    }

    /// Takes one step: fetches the instruction under the pointer and
    /// executes it. Where the pointer lies past the end of the program the
    /// run has ended, and nothing changes.
    ///
    /// A fault carries the pointer of the instruction that raised it.
    pub fn step(&mut self) -> (result: Result<Progress, BytecodeError>)
        ensures
            final(self).code() == old(self).code(),
            agrees(step(old(self).code(), old(self)@), final(self)@, result, old(self)@.pointer),
    {
        let length = self.program.len();
        if self.pointer < length as u64 {
            let op = self.program.instructions().0[self.pointer as usize];
            self.execute_op(&op)
        } else {
            Ok(Progress::Halted)
        }
    }

    /// Runs the program from the state as it stands, for at most
    /// `max_steps` steps.
    ///
    /// The run ends with `Halted` where the pointer leaves the program or
    /// `Exit` executes, and with the first fault, which carries the pointer
    /// of the instruction that raised it. Where the steps are used up first
    /// the answer is `Running`, and a further call goes on from there.
    pub fn run(&mut self, max_steps: u64) -> (result: Result<Progress, BytecodeError>)
        ensures
            final(self).code() == old(self).code(),
            agrees(
                run(old(self).code(), old(self)@, max_steps as nat),
                final(self)@,
                result,
                final(self)@.pointer,
            ),
    {
        let mut taken: u64 = 0;
        while taken < max_steps
            invariant
                self.code() == old(self).code(),
                taken <= max_steps,
                run(old(self).code(), old(self)@, max_steps as nat) == run(
                    self.code(),
                    self@,
                    (max_steps - taken) as nat,
                ),
            decreases max_steps - taken,
        {
            match self.step() {
                Ok(Progress::Running) => {},
                ended => {
                    return ended;
                },
            }
            taken += 1;
        }
        Ok(Progress::Running)
    }
}

} // verus!
