//! What the machine does, said without a machine: the state of a run and
//! the step that takes one state to the next.
//!
//! The engine in [`crate::vm`] is verified against this model.

use vstd::prelude::*;

use crate::error::BytecodeErrorKind;
use crate::opcode::{Op, OpcodeV1};
use crate::rawbytes::pointer_of;
use crate::{Pointer, Value};

verus! {

/// The operand of `Debug` that asks for the whole stack to be discarded.
pub const DISCARD_ALL: Value = -1;

/// What a `Debug` instruction records: where it stood and the stack it saw,
/// bottom first.
pub struct Snapshot {
    pub pointer: Pointer,
    pub stack: Seq<Value>,
}

/// The state of a run. The top of the stack and the latest return pointer
/// are the last elements of their sequences.
pub struct State {
    /// The instruction to fetch next.
    pub pointer: Pointer,
    /// The value stack.
    pub stack: Seq<Value>,
    /// The pointers that pending calls return to.
    pub calls: Seq<Pointer>,
    /// What `Store` has kept, by key.
    pub store: Map<Pointer, Value>,
    /// What `Debug` has recorded so far, oldest first.
    pub trace: Seq<Snapshot>,
}

/// How a run stands after a step.
pub enum Status {
    /// The next instruction can be fetched.
    Running,
    /// The run has ended as it should: the pointer left the program, or
    /// `Exit` ran.
    Halted,
    /// The run has ended on a fault.
    Faulted(BytecodeErrorKind),
}

/// The state in which every run starts: at the first instruction, with
/// nothing on the stacks, in the store or in the trace.
pub open spec fn initial() -> State {
    State {
        pointer: 0,
        stack: Seq::empty(),
        calls: Seq::empty(),
        store: Map::empty(),
        trace: Seq::empty(),
    }
}

/// The pointer that lies `distance` after `pointer`. The largest pointer
/// addresses no instruction of a program that fits in memory; a pointer
/// that would pass it stays there, and the run then ends as it does past
/// the end of any program.
pub open spec fn forward(pointer: Pointer, distance: int) -> Pointer {
    if pointer + distance > Pointer::MAX {
        Pointer::MAX
    } else {
        (pointer + distance) as Pointer
    }
}

/// The value that a number stands for in 64 bits: the one that differs from
/// it by a multiple of 2^64.
pub open spec fn wrap(number: int) -> Value {
    let low = number % 0x1_0000_0000_0000_0000;
    if low < 0x8000_0000_0000_0000 {
        low as Value
    } else {
        (low - 0x1_0000_0000_0000_0000) as Value
    }
}

/// A number without its sign.
pub open spec fn magnitude(number: int) -> int {
    if number < 0 {
        -number
    } else {
        number
    }
}

/// The quotient of a division, rounded towards zero.
pub open spec fn quotient(dividend: int, divisor: int) -> int
    recommends
        divisor != 0,
{
    let size = magnitude(dividend) / magnitude(divisor);
    if (dividend < 0) == (divisor < 0) {
        size
    } else {
        -size
    }
}

/// The remainder of a division whose quotient is rounded towards zero: it
/// has the sign of the dividend.
pub open spec fn remainder(dividend: int, divisor: int) -> int
    recommends
        divisor != 0,
{
    let size = magnitude(dividend) % magnitude(divisor);
    if dividend < 0 {
        -size
    } else {
        size
    }
}

/// A truth value as the machine holds it.
pub open spec fn truth(holds: bool) -> Value {
    if holds {
        1
    } else {
        0
    }
}

/// Whether the opcode pops two values and pushes one.
pub open spec fn is_binary(opcode: OpcodeV1) -> bool {
    match opcode {
        OpcodeV1::Add | OpcodeV1::Sub | OpcodeV1::Mul | OpcodeV1::Div | OpcodeV1::Mod => true,
        OpcodeV1::GT | OpcodeV1::LT | OpcodeV1::GTE | OpcodeV1::LTE | OpcodeV1::EQ => true,
        _ => false,
    }
}

/// What a binary opcode makes of the value popped second (`lower`, the one
/// that was pushed first) and the value popped first (`upper`): `lower`
/// stands to the left of the operator. Sums, differences, products and the
/// one quotient that does not fit are taken in 64 bits. There is no result
/// when the divisor is zero.
pub open spec fn binary(opcode: OpcodeV1, lower: Value, upper: Value) -> Option<Value>
    recommends
        is_binary(opcode),
{
    match opcode {
        OpcodeV1::Add => Some(wrap(lower + upper)),
        OpcodeV1::Sub => Some(wrap(lower - upper)),
        OpcodeV1::Mul => Some(wrap(lower * upper)),
        OpcodeV1::Div => if upper == 0 {
            None
        } else {
            Some(wrap(quotient(lower as int, upper as int)))
        },
        OpcodeV1::Mod => if upper == 0 {
            None
        } else {
            Some(remainder(lower as int, upper as int) as Value)
        },
        OpcodeV1::GT => Some(truth(lower > upper)),
        OpcodeV1::LT => Some(truth(lower < upper)),
        OpcodeV1::GTE => Some(truth(lower >= upper)),
        OpcodeV1::LTE => Some(truth(lower <= upper)),
        _ => Some(truth(lower == upper)),
    }
}

/// The state moves on to the next instruction.
pub open spec fn advance(state: State) -> (State, Status) {
    (State { pointer: forward(state.pointer, 1), ..state }, Status::Running)
}

/// The state moves on to the instruction at `target`.
pub open spec fn jump(state: State, target: Pointer) -> (State, Status) {
    (State { pointer: target, ..state }, Status::Running)
}

/// The run ends on a fault, in the state the fault found.
pub open spec fn fault(state: State, kind: BytecodeErrorKind) -> (State, Status) {
    (state, Status::Faulted(kind))
}

/// The stack after `count` values have left it.
pub open spec fn without_top(stack: Seq<Value>, count: int) -> Seq<Value>
    recommends
        0 <= count <= stack.len(),
{
    stack.take(stack.len() - count)
}

/// What a binary opcode does: it pops the upper value, then the lower, and
/// pushes what [`binary`] makes of them.
pub open spec fn execute_binary(opcode: OpcodeV1, state: State) -> (State, Status)
    recommends
        is_binary(opcode),
{
    let depth = state.stack.len() as int;
    if depth == 0 {
        fault(state, BytecodeErrorKind::StackIsEmpty)
    } else if depth == 1 {
        fault(State { stack: Seq::empty(), ..state }, BytecodeErrorKind::StackIsEmpty)
    } else {
        let rest = without_top(state.stack, 2);
        match binary(opcode, state.stack[depth - 2], state.stack[depth - 1]) {
            Some(result) => advance(State { stack: rest.push(result), ..state }),
            None => fault(State { stack: rest, ..state }, BytecodeErrorKind::DivisionByZero),
        }
    }
}

/// What `JumpIfFalse` does: it pops the condition, asks for its operand
/// whatever the condition is, and jumps where the condition is zero.
pub open spec fn execute_jump_if_false(op: Op, state: State) -> (State, Status) {
    if state.stack.len() == 0 {
        fault(state, BytecodeErrorKind::StackIsEmpty)
    } else {
        let popped = State { stack: without_top(state.stack, 1), ..state };
        match op.operand {
            None => fault(popped, BytecodeErrorKind::PointerNotProvided),
            Some(target) => if state.stack.last() == 0 {
                jump(popped, pointer_of(target))
            } else {
                advance(popped)
            },
        }
    }
}

/// What `Debug` does: it records the pointer and the stack, then discards
/// the whole stack where its operand is [`DISCARD_ALL`], and else as many
/// values as the operand says (none where it is negative). Where the stack
/// holds fewer than that, it is emptied and the run faults.
pub open spec fn execute_debug(op: Op, state: State) -> (State, Status) {
    let seen = State {
        trace: state.trace.push(Snapshot { pointer: state.pointer, stack: state.stack }),
        ..state
    };
    match op.operand {
        None => fault(seen, BytecodeErrorKind::ValueNotProvided),
        Some(count) => if count == DISCARD_ALL {
            advance(State { stack: Seq::empty(), ..seen })
        } else if count <= 0 {
            advance(seen)
        } else if count <= seen.stack.len() {
            advance(State { stack: without_top(seen.stack, count as int), ..seen })
        } else {
            fault(State { stack: Seq::empty(), ..seen }, BytecodeErrorKind::StackIsEmpty)
        },
    }
}

/// What one instruction does to a state.
pub open spec fn execute(op: Op, state: State) -> (State, Status) {
    match op.opcode {
        OpcodeV1::Noop => advance(state),
        OpcodeV1::Push => match op.operand {
            None => fault(state, BytecodeErrorKind::ValueNotProvided),
            Some(value) => advance(State { stack: state.stack.push(value), ..state }),
        },
        OpcodeV1::Jump => match op.operand {
            None => fault(state, BytecodeErrorKind::PointerNotProvided),
            Some(target) => jump(state, pointer_of(target)),
        },
        OpcodeV1::JumpIfFalse => execute_jump_if_false(op, state),
        OpcodeV1::Proc => match op.operand {
            None => fault(state, BytecodeErrorKind::PointerNotProvided),
            Some(length) => jump(state, forward(state.pointer, pointer_of(length) + 1)),
        },
        OpcodeV1::Call => {
            let called = State { calls: state.calls.push(forward(state.pointer, 1)), ..state };
            match op.operand {
                None => fault(called, BytecodeErrorKind::PointerNotProvided),
                Some(target) => jump(called, pointer_of(target)),
            }
        },
        OpcodeV1::Return => if state.calls.len() == 0 {
            fault(state, BytecodeErrorKind::CallStackIsEmpty)
        } else {
            jump(State { calls: state.calls.drop_last(), ..state }, state.calls.last())
        },
        OpcodeV1::Store => if state.stack.len() == 0 {
            fault(state, BytecodeErrorKind::StackIsEmpty)
        } else {
            let popped = State { stack: without_top(state.stack, 1), ..state };
            match op.operand {
                None => fault(popped, BytecodeErrorKind::ValueNotProvided),
                Some(key) => advance(
                    State {
                        store: state.store.insert(pointer_of(key), state.stack.last()),
                        ..popped
                    },
                ),
            }
        },
        OpcodeV1::Load => match op.operand {
            None => fault(state, BytecodeErrorKind::ValueNotProvided),
            Some(key) => if state.store.contains_key(pointer_of(key)) {
                advance(State { stack: state.stack.push(state.store[pointer_of(key)]), ..state })
            } else {
                fault(state, BytecodeErrorKind::StoreIndexNotFound(pointer_of(key)))
            },
        },
        OpcodeV1::Exit => (state, Status::Halted),
        OpcodeV1::Debug => execute_debug(op, state),
        _ => execute_binary(op.opcode, state),
    }
}

/// One step of a run: the instruction under the pointer is fetched and
/// executed. Where the pointer lies past the end of the program there is
/// none, and the run has ended.
pub open spec fn step(program: Seq<Op>, state: State) -> (State, Status) {
    if state.pointer < program.len() {
        execute(program[state.pointer as int], state)
    } else {
        (state, Status::Halted)
    }
}

/// A run of at most `steps` steps: it stops before that where a step halts
/// or faults, and is still `Running` where the steps were used up first.
pub open spec fn run(program: Seq<Op>, state: State, steps: nat) -> (State, Status)
    decreases steps,
{
    if steps == 0 {
        (state, Status::Running)
    } else {
        let (next, status) = step(program, state);
        if status is Running {
            run(program, next, (steps - 1) as nat)
        } else {
            (next, status)
        }
    }
}

/// A run can be taken in two parts: where the first part is still running
/// when its steps are used up, the second part goes on from its state, and
/// where it halts or faults, that is how the whole run ends.
pub proof fn lemma_run_in_parts(program: Seq<Op>, state: State, first: nat, second: nat)
    ensures
        run(program, state, first + second) == {
            let (reached, status) = run(program, state, first);
            if status is Running {
                run(program, reached, second)
            } else {
                (reached, status)
            }
        },
    decreases first,
{
    if first > 0 {
        let (next, status) = step(program, state);
        if status is Running {
            lemma_run_in_parts(program, next, (first - 1) as nat, second);
            assert((first - 1) as nat + second == (first + second - 1) as nat);
        }
    }
}

/// A run that has left its program stays where it is: every further step
/// finds it halted, in the same state.
pub proof fn lemma_halted_stays(program: Seq<Op>, state: State, steps: nat)
    requires
        state.pointer >= program.len(),
        steps > 0,
    ensures
        run(program, state, steps) == (state, Status::Halted),
{
}

/// A fault leaves the pointer on the instruction that raised it.
pub proof fn lemma_fault_keeps_pointer(op: Op, state: State)
    ensures
        execute(op, state).1 is Faulted ==> execute(op, state).0.pointer == state.pointer,
{
}

/// `JumpIfFalse` pops the condition and continues at its operand exactly
/// when the condition is zero; with any other condition it continues at the
/// next instruction. Without an operand it faults, whatever the condition.
pub proof fn lemma_jump_if_false(op: Op, state: State)
    requires
        op.opcode == OpcodeV1::JumpIfFalse,
        state.stack.len() > 0,
    ensures
        op.operand is None ==> execute(op, state).1 == Status::Faulted(
            BytecodeErrorKind::PointerNotProvided,
        ),
        op.operand matches Some(target) ==> execute(op, state) == (
            State {
                pointer: if state.stack.last() == 0 {
                    pointer_of(target)
                } else {
                    forward(state.pointer, 1)
                },
                stack: state.stack.drop_last(),
                ..state
            },
            Status::Running,
        ),
{
    assert(without_top(state.stack, 1) =~= state.stack.drop_last());
}

/// A value pushed and then tested by `JumpIfFalse` sends the run to the
/// target of the jump where the value is zero, and past the jump where it
/// is not; the stack is as it was before the push.
pub proof fn lemma_branch(program: Seq<Op>, state: State, condition: Value, target: Value)
    requires
        program.len() <= Pointer::MAX,
        state.pointer + 1 < program.len(),
        program[state.pointer as int] == (Op {
            opcode: OpcodeV1::Push,
            operand: Some(condition),
        }),
        program[state.pointer + 1] == (Op {
            opcode: OpcodeV1::JumpIfFalse,
            operand: Some(target),
        }),
    ensures
        run(program, state, 2) == (
            State {
                pointer: if condition == 0 {
                    pointer_of(target)
                } else {
                    (state.pointer + 2) as Pointer
                },
                ..state
            },
            Status::Running,
        ),
{
    reveal_with_fuel(run, 3);
    let pushed = step(program, state).0;
    assert(without_top(pushed.stack, 1) =~= state.stack);
}

/// A binary opcode that finds fewer than two values on the stack faults
/// with `StackIsEmpty`: no value is made up in place of a missing one.
pub proof fn lemma_underflow(op: Op, state: State)
    requires
        is_binary(op.opcode),
        state.stack.len() < 2,
    ensures
        execute(op, state).1 == Status::Faulted(BytecodeErrorKind::StackIsEmpty),
        execute(op, state).0.stack.len() == 0,
{
}

/// A binary opcode that finds two values replaces them by one, and leaves
/// what lies below them; only a division by zero keeps it from that.
pub proof fn lemma_binary(op: Op, state: State)
    requires
        is_binary(op.opcode),
        state.stack.len() >= 2,
    ensures
        ({
            let depth = state.stack.len() as int;
            let (next, status) = execute(op, state);
            match binary(op.opcode, state.stack[depth - 2], state.stack[depth - 1]) {
                Some(result) => status is Running && next.stack == state.stack.take(
                    depth - 2,
                ).push(result),
                None => status == Status::Faulted(BytecodeErrorKind::DivisionByZero) && (
                op.opcode == OpcodeV1::Div || op.opcode == OpcodeV1::Mod) && state.stack[depth
                    - 1] == 0,
            }
        }),
{
}

/// `Call` continues at its operand and `Return` comes back behind the call:
/// whatever ran in between, if the pending calls are again what the call
/// left, `Return` continues at the instruction after the call and leaves
/// the pending calls as they were before it.
pub proof fn lemma_call_return(call: Op, before: State, back: Op, inside: State)
    requires
        call.opcode == OpcodeV1::Call,
        call.operand is Some,
        back.opcode == OpcodeV1::Return,
        inside.calls == execute(call, before).0.calls,
    ensures
        execute(call, before).1 is Running,
        execute(call, before).0.pointer == pointer_of(call.operand.unwrap()),
        execute(call, before).0.stack == before.stack,
        execute(back, inside) == (
            State { pointer: forward(before.pointer, 1), calls: before.calls, ..inside },
            Status::Running,
        ),
{
    assert(before.calls.push(forward(before.pointer, 1)).drop_last() =~= before.calls);
}

/// `Return` with no call pending faults with `CallStackIsEmpty`.
pub proof fn lemma_return_without_call(op: Op, state: State)
    requires
        op.opcode == OpcodeV1::Return,
        state.calls.len() == 0,
    ensures
        execute(op, state) == (state, Status::Faulted(BytecodeErrorKind::CallStackIsEmpty)),
{
}

/// `Proc` skips itself and as many instructions as its operand says, where
/// that leads to a pointer at all.
pub proof fn lemma_proc(op: Op, state: State)
    requires
        op.opcode == OpcodeV1::Proc,
        op.operand is Some,
        state.pointer + pointer_of(op.operand.unwrap()) + 1 <= Pointer::MAX,
    ensures
        execute(op, state) == (
            State {
                pointer: (state.pointer + pointer_of(op.operand.unwrap()) + 1) as Pointer,
                ..state
            },
            Status::Running,
        ),
{
}

/// What `Store` has kept under a key, `Load` pushes: the value that was on
/// top of the stack, which `Store` took off. What is kept under other keys
/// stays.
pub proof fn lemma_store_load(store: Op, load: Op, state: State)
    requires
        store.opcode == OpcodeV1::Store,
        load.opcode == OpcodeV1::Load,
        store.operand is Some,
        load.operand == store.operand,
        state.stack.len() > 0,
    ensures
        ({
            let key = pointer_of(store.operand.unwrap());
            let (kept, status) = execute(store, state);
            &&& status is Running
            &&& kept.stack == state.stack.drop_last()
            &&& kept.store == state.store.insert(key, state.stack.last())
            &&& forall|other: Pointer|
                other != key ==> kept.store.contains_key(other) == state.store.contains_key(
                    other,
                ) && kept.store[other] == state.store[other]
            &&& execute(load, kept).1 is Running
            &&& execute(load, kept).0.stack == state.stack
        }),
{
    assert(without_top(state.stack, 1) =~= state.stack.drop_last());
    assert(state.stack.drop_last().push(state.stack.last()) =~= state.stack);
}

/// `Load` of a key under which nothing was ever kept faults with
/// `StoreIndexNotFound` and the key.
pub proof fn lemma_load_unknown(op: Op, state: State)
    requires
        op.opcode == OpcodeV1::Load,
        op.operand is Some,
        !state.store.contains_key(pointer_of(op.operand.unwrap())),
    ensures
        execute(op, state) == (
            state,
            Status::Faulted(
                BytecodeErrorKind::StoreIndexNotFound(pointer_of(op.operand.unwrap())),
            ),
        ),
{
}

/// `Debug` records the stack it finds. With the sentinel for an operand it
/// then leaves the stack empty; with a count that the stack can meet it
/// takes exactly that many values off the top; with a greater count it
/// faults with `StackIsEmpty`.
pub proof fn lemma_debug(op: Op, state: State)
    requires
        op.opcode == OpcodeV1::Debug,
        op.operand is Some,
    ensures
        ({
            let count = op.operand.unwrap();
            let depth = state.stack.len();
            let (next, status) = execute(op, state);
            &&& next.trace == state.trace.push(
                Snapshot { pointer: state.pointer, stack: state.stack },
            )
            &&& count == DISCARD_ALL ==> status is Running && next.stack.len() == 0
            &&& 0 <= count <= depth ==> status is Running && next.stack.len() == depth - count
                && next.stack == state.stack.take(depth - count)
            &&& count > depth ==> status == Status::Faulted(BytecodeErrorKind::StackIsEmpty)
        }),
{
    assert(without_top(state.stack, 0) =~= state.stack);
}

} // verus!
