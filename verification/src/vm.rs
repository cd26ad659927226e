//! The stack machine that runs compiled chunks.
use vstd::prelude::*;
use crate::ast::text_around;
use crate::bytecode::{Chunk, OpCode, SChunk, op_of_byte, op_byte, op_of_operator, values_view};
use crate::compiler::{CRes, c_node, c_block, compile_result, emit};
use crate::node::SNode;
use crate::text::owned;
use crate::value::{Value, SValue};

verus! {

/// The model of the machine: its stack (top last) and its global variables.
pub struct VmState {
    pub stack: Seq<SValue>,
    pub globals: Map<Seq<char>, SValue>,
}

/// What one instruction does: go on at an instruction, stop with a result or
/// an error, or panic.
pub enum Step {
    Next(int, VmState),
    Halt(VmState, Result<SValue, Seq<char>>),
    Panic,
}

/// What a run does within a number of instructions.
pub enum VmRun {
    Finished(VmState, Result<SValue, Seq<char>>),
    Panic,
    Exhausted,
}

/// The state with `v` on top of the stack.
pub open spec fn push(st: VmState, v: SValue) -> VmState {
    VmState { stack: st.stack.push(v), globals: st.globals }
}

/// The state with the top of the stack removed.
pub open spec fn pop(st: VmState) -> VmState {
    VmState { stack: st.stack.drop_last(), globals: st.globals }
}

/// The state with the two topmost values removed.
pub open spec fn pop2(st: VmState) -> VmState {
    pop(pop(st))
}

/// Only `false` is falsey.
pub open spec fn falsey(v: SValue) -> bool {
    v == SValue::Bool(false)
}

/// A comparison or an arithmetic instruction on two integers; `None` where
/// the arithmetic overflows or divides by zero.
pub open spec fn int_binary(op: OpCode, x: i32, y: i32) -> Option<SValue> {
    let r: int = match op {
        OpCode::Add => x + y,
        OpCode::Subtract => x - y,
        _ => x * y,
    };
    match op {
        OpCode::OpEqual => Some(SValue::Bool(x == y)),
        OpCode::OpGreater => Some(SValue::Bool(x > y)),
        OpCode::OpLess => Some(SValue::Bool(x < y)),
        OpCode::Divide => match x.checked_div(y) {
            Some(q) => Some(SValue::Int(q)),
            None => None,
        },
        _ => if i32::MIN <= r <= i32::MAX {
            Some(SValue::Int(r as i32))
        } else {
            None
        },
    }
}

/// The two-byte operand of a jump at `ip`, high byte first.
pub open spec fn jump_operand(code: Seq<u8>, ip: int) -> int {
    code[ip + 1] * 256 + code[ip + 2]
}

/// Going on at `target`, which must be an address.
pub open spec fn goto(target: int, st: VmState) -> Step {
    if target <= usize::MAX {
        Step::Next(target, st)
    } else {
        Step::Panic
    }
}

/// The error for a name that is not bound.
pub open spec fn undefined_message(name: Seq<char>) -> Seq<char> {
    "Undefined variable '"@ + name + "'."@
}

/// The constant that the operand of the instruction at `ip` names.
pub open spec fn operand_constant(ch: SChunk, ip: int) -> Option<SValue> {
    if ip + 1 < ch.code.len() && (ch.code[ip + 1] as int) < ch.constants.len() {
        Some(ch.constants[ch.code[ip + 1] as int])
    } else {
        None
    }
}

/// What the instruction at `ip` does.
pub open spec fn vm_step(ch: SChunk, ip: int, st: VmState) -> Step {
    let code = ch.code;
    let n = st.stack.len();
    if !(0 <= ip < code.len()) {
        Step::Panic
    } else {
        match op_of_byte(code[ip]) {
            None => Step::Panic,
            Some(op) => match op {
                OpCode::Return => if n == 0 {
                    Step::Halt(st, Ok(SValue::Null))
                } else {
                    Step::Halt(pop(st), Ok(st.stack.last()))
                },
                OpCode::Constant => match operand_constant(ch, ip) {
                    Some(v) => Step::Next(ip + 2, push(st, v)),
                    None => Step::Panic,
                },
                OpCode::Nil => Step::Next(ip + 1, push(st, SValue::Null)),
                OpCode::OpTrue => Step::Next(ip + 1, push(st, SValue::Bool(true))),
                OpCode::OpFalse => Step::Next(ip + 1, push(st, SValue::Bool(false))),
                OpCode::Pop => Step::Next(ip + 1, if n == 0 { st } else { pop(st) }),
                OpCode::Jump => if ip + 2 < code.len() {
                    goto(ip + 3 + jump_operand(code, ip), st)
                } else {
                    Step::Panic
                },
                OpCode::JumpIfFalse => if ip + 2 < code.len() && n > 0 {
                    if falsey(st.stack.last()) {
                        goto(ip + 3 + jump_operand(code, ip), pop(st))
                    } else {
                        Step::Next(ip + 3, pop(st))
                    }
                } else {
                    Step::Panic
                },
                OpCode::Negate => if n == 0 {
                    Step::Panic
                } else {
                    match st.stack.last() {
                        SValue::Int(x) => if x == i32::MIN {
                            Step::Panic
                        } else {
                            Step::Next(ip + 1, push(pop(st), SValue::Int(-x as i32)))
                        },
                        _ => Step::Halt(pop(st), Err("Operand must be a number."@)),
                    }
                },
                OpCode::DefineGlobal => match operand_constant(ch, ip) {
                    Some(SValue::Str(name)) => if n == 0 {
                        Step::Panic
                    } else {
                        Step::Next(
                            ip + 2,
                            VmState {
                                stack: st.stack.drop_last(),
                                globals: st.globals.insert(name, st.stack.last()),
                            },
                        )
                    },
                    Some(_) => Step::Halt(st, Err("Global variable name must be a string."@)),
                    None => Step::Panic,
                },
                OpCode::GetGlobal => match operand_constant(ch, ip) {
                    Some(SValue::Str(name)) => if st.globals.contains_key(name) {
                        Step::Next(ip + 2, push(st, st.globals[name]))
                    } else {
                        Step::Halt(st, Err(undefined_message(name)))
                    },
                    Some(_) => Step::Halt(st, Err("Global variable name must be a string."@)),
                    None => Step::Panic,
                },
                OpCode::SetGlobal => match operand_constant(ch, ip) {
                    Some(SValue::Str(name)) => if n == 0 {
                        Step::Panic
                    } else if st.globals.contains_key(name) {
                        Step::Next(
                            ip + 2,
                            VmState {
                                stack: st.stack,
                                globals: st.globals.insert(name, st.stack.last()),
                            },
                        )
                    } else {
                        Step::Halt(st, Err(undefined_message(name)))
                    },
                    Some(_) => Step::Halt(st, Err("Global variable name must be a string."@)),
                    None => Step::Panic,
                },
                OpCode::OpNot => if n == 0 {
                    Step::Panic
                } else {
                    match st.stack.last() {
                        SValue::Bool(b) => Step::Next(ip, push(pop(st), SValue::Bool(!b))),
                        _ => Step::Halt(pop(st), Err("Operand must be a boolean."@)),
                    }
                },
                OpCode::OpModulo => if n < 2 {
                    Step::Panic
                } else {
                    match (st.stack[n - 2], st.stack[n - 1]) {
                        (SValue::Int(x), SValue::Int(y)) => if y == 0 {
                            Step::Halt(pop2(st), Err("Division by zero."@))
                        } else {
                            match x.checked_rem(y) {
                                Some(r) => Step::Next(ip, push(pop2(st), SValue::Int(r))),
                                None => Step::Panic,
                            }
                        },
                        _ => Step::Halt(pop2(st), Err("Operands must be numbers."@)),
                    }
                },
                OpCode::Call => Step::Panic,
                _ => if n < 2 {
                    Step::Panic
                } else {
                    match (st.stack[n - 2], st.stack[n - 1]) {
                        (SValue::Int(x), SValue::Int(y)) => match int_binary(op, x, y) {
                            Some(v) => Step::Next(ip + 1, push(pop2(st), v)),
                            None => Step::Panic,
                        },
                        _ => Step::Halt(pop2(st), Err("Mismatched types for operation"@)),
                    }
                },
            },
        }
    }
}

/// Running from the instruction at `ip` for at most `fuel` instructions.
pub open spec fn vm_run(ch: SChunk, ip: int, st: VmState, fuel: nat) -> VmRun
    decreases fuel,
{
    if fuel == 0 {
        VmRun::Exhausted
    } else {
        match vm_step(ch, ip, st) {
            Step::Next(next, st2) => vm_run(ch, next, st2, (fuel - 1) as nat),
            Step::Halt(st2, r) => VmRun::Finished(st2, r),
            Step::Panic => VmRun::Panic,
        }
    }
}

/// Whether a run of the chunk from its first instruction stops without a panic.
pub open spec fn vm_halts(ch: SChunk, st: VmState) -> bool {
    exists|fuel: nat| #[trigger] vm_run(ch, 0, st, fuel) is Finished
}

/// How a run of the chunk from its first instruction ends.
pub open spec fn vm_outcome(ch: SChunk, st: VmState) -> VmRun {
    vm_run(ch, 0, st, choose|fuel: nat| #[trigger] vm_run(ch, 0, st, fuel) is Finished)
}

/// Whether an executable result stands for a modelled one.
pub open spec fn result_matches(x: Result<Value, String>, r: Result<SValue, Seq<char>>) -> bool {
    match (x, r) {
        (Ok(v), Ok(w)) => v@ == w,
        (Err(e), Err(m)) => e@ == m,
        _ => false,
    }
}

/// The map a list of bindings stands for: a later binding of a name hides an
/// earlier one.
pub open spec fn globals_map(s: Seq<(String, Value)>) -> Map<Seq<char>, SValue>
    decreases s.len(),
{
    if s.len() == 0 {
        Map::empty()
    } else {
        globals_map(s.drop_last()).insert(s.last().0@, s.last().1@)
    }
}

/// Whether `i` is the last position of the list that binds `k`.
pub open spec fn last_global(s: Seq<(String, Value)>, k: Seq<char>, i: int) -> bool {
    &&& 0 <= i < s.len()
    &&& s[i].0@ == k
    &&& forall|j: int| i < j < s.len() ==> s[j].0@ != k
}

proof fn lemma_globals_lookup(s: Seq<(String, Value)>, k: Seq<char>, i: int)
    requires
        last_global(s, k, i),
    ensures
        globals_map(s).contains_key(k),
        globals_map(s)[k] == s[i].1@,
    decreases s.len(),
{
    if i < s.len() - 1 {
        lemma_globals_lookup(s.drop_last(), k, i);
    }
}

proof fn lemma_globals_absent(s: Seq<(String, Value)>, k: Seq<char>)
    requires
        forall|j: int| 0 <= j < s.len() ==> s[j].0@ != k,
    ensures
        !globals_map(s).contains_key(k),
    decreases s.len(),
{
    if s.len() > 0 {
        lemma_globals_absent(s.drop_last(), k);
    }
}

proof fn lemma_globals_update(s: Seq<(String, Value)>, k: Seq<char>, i: int, e: (String, Value))
    requires
        last_global(s, k, i),
        e.0@ == k,
    ensures
        globals_map(s.update(i, e)) == globals_map(s).insert(k, e.1@),
    decreases s.len(),
{
    if i == s.len() - 1 {
        assert(s.update(i, e).drop_last() =~= s.drop_last());
    } else {
        lemma_globals_update(s.drop_last(), k, i, e);
        assert(s.update(i, e).drop_last() =~= s.drop_last().update(i, e));
        assert(globals_map(s.update(i, e)) =~= globals_map(s).insert(k, e.1@));
    }
}

proof fn lemma_globals_push(s: Seq<(String, Value)>, e: (String, Value))
    ensures
        globals_map(s.push(e)) == globals_map(s).insert(e.0@, e.1@),
{
    assert(s.push(e).drop_last() =~= s);
}

/// What one call of [`VM::step`] gives: the next instruction, or the end of the run.
pub enum StepOutcome {
    Continue(usize),
    Finished(Result<Value, String>),
}

/// A stack machine with global variables.
pub struct VM {
    stack: Vec<Value>,
    globals: Vec<(String, Value)>,
}

impl View for VM {
    type V = VmState;

    closed spec fn view(&self) -> VmState {
        VmState { stack: values_view(self.stack@), globals: globals_map(self.globals@) }
    }
}

impl Default for VM {
    fn default() -> (res: Self)
        ensures
            res@ == (VmState { stack: Seq::empty(), globals: Map::empty() }),
    {
        Self::new()
    }
}

/// Only `false` is falsey.
fn value_is_falsey(value: &Value) -> (res: bool)
    ensures
        res == falsey(value@),
{
    matches!(value, Value::Bool(false))
}

impl VM {
    /// A machine with an empty stack and no globals.
    pub fn new() -> (res: Self)
        ensures
            res@ == (VmState { stack: Seq::empty(), globals: Map::empty() }),
    {
        let res = VM { stack: Vec::new(), globals: Vec::new() };
        assert(values_view(res.stack@) =~= Seq::<SValue>::empty());
        res
    }

    /// The values on the stack, bottom first.
    pub fn stack(&self) -> (res: Vec<Value>)
        ensures
            values_view(res@) == self@.stack,
    {
        let mut res: Vec<Value> = Vec::new();
        let mut i: usize = 0;
        while i < self.stack.len()
            invariant
                i <= self.stack.len(),
                values_view(res@) == values_view(self.stack@).subrange(0, i as int),
            decreases self.stack.len() - i,
        {
            let ghost before = res@;
            let v = self.stack[i].clone();
            let ghost vv = v@;
            res.push(v);
            assert(values_view(res@) =~= values_view(before).push(vv));
            i += 1;
            assert(values_view(res@) =~= values_view(self.stack@).subrange(0, i as int));
        }
        assert(values_view(self.stack@).subrange(0, i as int) =~= values_view(self.stack@));
        res
    }

    fn push_value(&mut self, v: Value)
        ensures
            final(self)@ == push(old(self)@, v@),
    {
        proof {
            assert(values_view(self.stack@.push(v)) =~= values_view(self.stack@).push(v@));
        }
        self.stack.push(v);
    }

    fn pop_value(&mut self) -> (res: Value)
        requires
            old(self)@.stack.len() > 0,
        ensures
            res@ == old(self)@.stack.last(),
            final(self)@ == pop(old(self)@),
    {
        proof {
            assert(values_view(self.stack@.drop_last()) =~= values_view(self.stack@).drop_last());
        }
        match self.stack.pop() {
            Some(v) => v,
            None => vstd::pervasive::unreached(),
        }
    }

    /// The position of the last binding of `name`.
    fn global_index(&self, name: &String) -> (res: Option<usize>)
        ensures
            match res {
                Some(i) => last_global(self.globals@, name@, i as int),
                None => forall|j: int|
                    0 <= j < self.globals@.len() ==> self.globals@[j].0@ != name@,
            },
    {
        let mut i = self.globals.len();
        while i > 0
            invariant
                i <= self.globals.len(),
                forall|j: int| i <= j < self.globals@.len() ==> self.globals@[j].0@ != name@,
            decreases i,
        {
            if self.globals[i - 1].0 == *name {
                return Some(i - 1);
            }
            i -= 1;
        }
        None
    }

    /// The value bound to `name`, if any.
    fn get_global(&self, name: &String) -> (res: Option<Value>)
        ensures
            match res {
                Some(v) => self@.globals.contains_key(name@) && v@ == self@.globals[name@],
                None => !self@.globals.contains_key(name@),
            },
    {
        match self.global_index(name) {
            Some(i) => {
                proof {
                    lemma_globals_lookup(self.globals@, name@, i as int);
                }
                Some(self.globals[i].1.clone())
            },
            None => {
                proof {
                    lemma_globals_absent(self.globals@, name@);
                }
                None
            },
        }
    }

    /// Binds `name` to `value`, replacing any earlier binding.
    fn set_global(&mut self, name: String, value: Value)
        ensures
            final(self)@ == (VmState {
                stack: old(self)@.stack,
                globals: old(self)@.globals.insert(name@, value@),
            }),
    {
        match self.global_index(&name) {
            Some(i) => {
                proof {
                    lemma_globals_update(self.globals@, name@, i as int, (name, value));
                }
                self.globals.set(i, (name, value));
            },
            None => {
                proof {
                    lemma_globals_push(self.globals@, (name, value));
                }
                self.globals.push((name, value));
            },
        }
    }

    /// The constant that the operand of the instruction at `ip` names.
    fn operand(chunk: &Chunk, ip: usize) -> (res: Value)
        requires
            operand_constant(chunk@, ip as int) is Some,
        ensures
            operand_constant(chunk@, ip as int) == Some(res@),
    {
        let len = chunk.code.len();
        assert(ip + 1 < len);
        let index = chunk.code[ip + 1] as usize;
        chunk.constants[index].clone()
    }

    /// The two-byte operand of the jump at `ip`.
    fn jump_offset(chunk: &Chunk, ip: usize) -> (res: usize)
        requires
            ip + 2 < chunk.code@.len(),
        ensures
            res == jump_operand(chunk.code@, ip as int),
    {
        let len = chunk.code.len();
        assert(ip + 2 < len);
        (chunk.code[ip + 1] as usize) * 256 + (chunk.code[ip + 2] as usize)
    }

    /// Runs the instruction at `ip` (see [`vm_step`]).
    pub fn step(&mut self, chunk: &Chunk, ip: usize) -> (res: StepOutcome)
        requires
            !(vm_step(chunk@, ip as int, old(self)@) is Panic),
        ensures
            match vm_step(chunk@, ip as int, old(self)@) {
                Step::Next(next, st) => res matches StepOutcome::Continue(n) && n == next
                    && final(self)@ == st,
                Step::Halt(st, r) => res matches StepOutcome::Finished(x) && final(self)@ == st
                    && result_matches(x, r),
                Step::Panic => false,
            },
    {
        let len = chunk.code.len();
        let instruction = chunk.code[ip];
        let opcode = match OpCode::decode(instruction) {
            Some(op) => op,
            None => vstd::pervasive::unreached(),
        };
        match opcode {
            OpCode::Return => {
                if self.stack.len() == 0 {
                    StepOutcome::Finished(Ok(Value::Null))
                } else {
                    StepOutcome::Finished(Ok(self.pop_value()))
                }
            },
            OpCode::Constant => {
                let v = Self::operand(chunk, ip);
                self.push_value(v);
                StepOutcome::Continue(ip + 2)
            },
            OpCode::Nil => {
                self.push_value(Value::Null);
                StepOutcome::Continue(ip + 1)
            },
            OpCode::OpTrue => {
                self.push_value(Value::Bool(true));
                StepOutcome::Continue(ip + 1)
            },
            OpCode::OpFalse => {
                self.push_value(Value::Bool(false));
                StepOutcome::Continue(ip + 1)
            },
            OpCode::Pop => {
                if self.stack.len() > 0 {
                    self.pop_value();
                }
                StepOutcome::Continue(ip + 1)
            },
            OpCode::Jump => {
                let offset = Self::jump_offset(chunk, ip);
                StepOutcome::Continue(ip + 3 + offset)
            },
            OpCode::JumpIfFalse => {
                let offset = Self::jump_offset(chunk, ip);
                let condition = self.pop_value();
                if value_is_falsey(&condition) {
                    StepOutcome::Continue(ip + 3 + offset)
                } else {
                    StepOutcome::Continue(ip + 3)
                }
            },
            OpCode::Negate => {
                let value = self.pop_value();
                match value {
                    Value::Int(val) => {
                        self.push_value(Value::Int(-val));
                        StepOutcome::Continue(ip + 1)
                    },
                    _ => StepOutcome::Finished(Err(owned("Operand must be a number."))),
                }
            },
            OpCode::DefineGlobal => {
                let name = Self::operand(chunk, ip);
                if let Value::Str(name_str) = name {
                    let value = self.pop_value();
                    self.set_global(name_str, value);
                    StepOutcome::Continue(ip + 2)
                } else {
                    StepOutcome::Finished(Err(owned("Global variable name must be a string.")))
                }
            },
            OpCode::GetGlobal => {
                let name = Self::operand(chunk, ip);
                if let Value::Str(name_str) = name {
                    match self.get_global(&name_str) {
                        Some(value) => {
                            self.push_value(value);
                            StepOutcome::Continue(ip + 2)
                        },
                        None => StepOutcome::Finished(
                            Err(text_around("Undefined variable '", &name_str, "'.")),
                        ),
                    }
                } else {
                    StepOutcome::Finished(Err(owned("Global variable name must be a string.")))
                }
            },
            OpCode::SetGlobal => {
                let name = Self::operand(chunk, ip);
                if let Value::Str(name_str) = name {
                    let value = self.stack[self.stack.len() - 1].clone();
                    assert(value@ == self@.stack.last());
                    match self.global_index(&name_str) {
                        Some(i) => {
                            proof {
                                lemma_globals_lookup(self.globals@, name_str@, i as int);
                            }
                            self.set_global(name_str, value);
                            StepOutcome::Continue(ip + 2)
                        },
                        None => {
                            proof {
                                lemma_globals_absent(self.globals@, name_str@);
                            }
                            StepOutcome::Finished(
                                Err(text_around("Undefined variable '", &name_str, "'.")),
                            )
                        },
                    }
                } else {
                    StepOutcome::Finished(Err(owned("Global variable name must be a string.")))
                }
            },
            OpCode::OpNot => {
                let value = self.pop_value();
                match value {
                    Value::Bool(b) => {
                        self.push_value(Value::Bool(!b));
                        StepOutcome::Continue(ip)
                    },
                    _ => StepOutcome::Finished(Err(owned("Operand must be a boolean."))),
                }
            },
            OpCode::OpModulo => {
                let b = self.pop_value();
                let a = self.pop_value();
                match (a, b) {
                    (Value::Int(a_val), Value::Int(b_val)) => {
                        if b_val == 0 {
                            return StepOutcome::Finished(Err(owned("Division by zero.")));
                        }
                        let r = match a_val.checked_rem(b_val) {
                            Some(r) => r,
                            None => vstd::pervasive::unreached(),
                        };
                        self.push_value(Value::Int(r));
                        StepOutcome::Continue(ip)
                    },
                    _ => StepOutcome::Finished(Err(owned("Operands must be numbers."))),
                }
            },
            OpCode::Call => vstd::pervasive::unreached(),
            _ => {
                let b = self.pop_value();
                let a = self.pop_value();
                match (&a, &b) {
                    (Value::Int(a_val), Value::Int(b_val)) => {
                        let x = *a_val;
                        let y = *b_val;
                        let result = match opcode {
                            OpCode::OpEqual => Value::Bool(x == y),
                            OpCode::OpGreater => Value::Bool(x > y),
                            OpCode::OpLess => Value::Bool(x < y),
                            OpCode::Add => Value::Int(x + y),
                            OpCode::Subtract => Value::Int(x - y),
                            OpCode::Multiply => Value::Int(x * y),
                            _ => match x.checked_div(y) {
                                Some(q) => Value::Int(q),
                                None => vstd::pervasive::unreached(),
                            },
                        };
                        self.push_value(result);
                        StepOutcome::Continue(ip + 1)
                    },
                    _ => {
                        if opcode == OpCode::OpEqual {
                            self.push_value(Value::Bool(a == b));
                            StepOutcome::Continue(ip + 1)
                        } else {
                            StepOutcome::Finished(Err(owned("Mismatched types for operation")))
                        }
                    },
                }
            },
        }
    }

    /// Runs the chunk from its first instruction until it returns or fails
    /// (see [`vm_run`]); chunks whose run panics or never ends are left out.
    pub fn interpret(&mut self, chunk: &Chunk) -> (res: Result<Value, String>)
        requires
            vm_halts(chunk@, old(self)@),
        ensures
            match vm_outcome(chunk@, old(self)@) {
                VmRun::Finished(st, r) => final(self)@ == st && result_matches(res, r),
                _ => false,
            },
    {
        let ghost fuel = choose|fuel: nat| #[trigger] vm_run(chunk@, 0, self@, fuel) is Finished;
        let ghost target = vm_run(chunk@, 0, self@, fuel);
        assert(target == vm_outcome(chunk@, old(self)@));
        let ghost mut g: nat = fuel;
        let mut ip: usize = 0;
        loop
            invariant
                vm_run(chunk@, ip as int, self@, g) == target,
                target is Finished,
                target == vm_outcome(chunk@, old(self)@),
            decreases g,
        {
            match self.step(chunk, ip) {
                StepOutcome::Continue(next) => {
                    ip = next;
                    proof {
                        g = (g - 1) as nat;
                    }
                },
                StepOutcome::Finished(r) => {
                    return r;
                },
            }
        }
    }
}

} // verus!

verus! {

/// The integer an arithmetic expression stands for: integer constants
/// combined by `+ - * /`; `None` where the expression holds anything else or
/// its arithmetic overflows or divides by zero.
pub open spec fn arith_value(n: SNode) -> Option<i32>
    decreases n,
{
    match n {
        SNode::Atomic { value } => match value {
            SValue::Int(i) => Some(i),
            _ => None,
        },
        SNode::BinaryExpression { left, operator, right } => match (
            arith_value(*left),
            arith_value(*right),
            op_of_operator(operator),
        ) {
            (Some(a), Some(b), Some(op)) => match int_binary(op, a, b) {
                Some(SValue::Int(v)) => Some(v),
                _ => None,
            },
            _ => None,
        },
        _ => None,
    }
}

/// The number of constants an arithmetic expression has.
pub open spec fn atom_count(n: SNode) -> nat
    decreases n,
{
    match n {
        SNode::BinaryExpression { left, right, .. } => atom_count(*left) + atom_count(*right),
        _ => 1,
    }
}

/// The number of instructions the code of an arithmetic expression runs.
pub open spec fn instruction_count(n: SNode) -> nat
    decreases n,
{
    match n {
        SNode::BinaryExpression { left, right, .. } => instruction_count(*left) + instruction_count(
            *right,
        ) + 1,
        _ => 1,
    }
}

/// Whether `a` starts `b`.
pub open spec fn starts<T>(a: Seq<T>, b: Seq<T>) -> bool {
    a.len() <= b.len() && forall|k: int| 0 <= k < a.len() ==> a[k] == #[trigger] b[k]
}

proof fn lemma_op_byte(op: OpCode)
    ensures
        op_of_byte(op_byte(op)) == Some(op),
{
}

proof fn lemma_push_pop(st: VmState, v: SValue)
    ensures
        pop(push(st, v)) == st,
{
    assert(push(st, v).stack.drop_last() =~= st.stack);
}

/// The code of an arithmetic expression, compiled onto `c` and found in `f`
/// at the same place, pushes the expression's value and goes on right after it.
proof fn lemma_arith_code(n: SNode, c: SChunk, f: SChunk, st: VmState, fuel: nat)
    requires
        arith_value(n) is Some,
        c.constants.len() + atom_count(n) <= 256,
        c_node(n, c) is Done,
        starts(c_node(n, c)->Done_0.code, f.code),
        starts(c_node(n, c)->Done_0.constants, f.constants),
    ensures
        starts(c.code, c_node(n, c)->Done_0.code),
        starts(c.constants, c_node(n, c)->Done_0.constants),
        c_node(n, c)->Done_0.constants.len() == c.constants.len() + atom_count(n),
        vm_run(f, c.code.len() as int, st, fuel + instruction_count(n)) == vm_run(
            f,
            c_node(n, c)->Done_0.code.len() as int,
            push(st, SValue::Int(arith_value(n)->0)),
            fuel,
        ),
    decreases n,
{
    let c2 = c_node(n, c)->Done_0;
    let ip = c.code.len() as int;
    match n {
        SNode::Atomic { value } => {
            let k = c.constants.len();
            assert(f.code[ip] == c2.code[ip]);
            assert(f.code[ip + 1] == c2.code[ip + 1]);
            assert((k as u8) as int == k);
            assert(f.constants[k as int] == c2.constants[k as int]);
            lemma_op_byte(OpCode::Constant);
            assert(vm_step(f, ip, st) == Step::Next(ip + 2, push(st, value)));
        },
        SNode::BinaryExpression { left, operator, right } => {
            let c1 = c_node(*left, c)->Done_0;
            let c3 = c_node(*right, c1)->Done_0;
            let op = op_of_operator(operator)->0;
            let a = arith_value(*left)->0;
            let b = arith_value(*right)->0;
            let v = arith_value(n)->0;
            lemma_arith_done(*left, c);
            lemma_arith_done(*right, c1);
            assert(c2 == emit(c3, op_byte(op)));
            assert(starts(c3.code, f.code));
            assert(starts(c3.constants, f.constants));
            lemma_arith_code(*right, c1, f, push(st, SValue::Int(a)), fuel + 1);
            lemma_arith_code(*left, c, f, st, fuel + 1 + instruction_count(*right));
            let st2 = push(push(st, SValue::Int(a)), SValue::Int(b));
            let ip3 = c3.code.len() as int;
            assert(f.code[ip3] == c2.code[ip3]);
            lemma_op_byte(op);
            lemma_push_pop(push(st, SValue::Int(a)), SValue::Int(b));
            lemma_push_pop(st, SValue::Int(a));
            assert(st2.stack[st2.stack.len() - 2] == SValue::Int(a));
            assert(vm_step(f, ip3, st2) == Step::Next(ip3 + 1, push(st, SValue::Int(v))));
            assert(fuel + instruction_count(n) == (fuel + 1 + instruction_count(*right))
                + instruction_count(*left));
        },
        _ => {},
    }
}

/// More fuel does not change a finished run.
pub proof fn lemma_vm_run_fuel(ch: SChunk, ip: int, st: VmState, f1: nat, f2: nat)
    requires
        f1 <= f2,
        vm_run(ch, ip, st, f1) is Finished,
    ensures
        vm_run(ch, ip, st, f2) == vm_run(ch, ip, st, f1),
    decreases f1,
{
    if f1 > 0 {
        match vm_step(ch, ip, st) {
            Step::Next(next, st2) => lemma_vm_run_fuel(ch, next, st2, (f1 - 1) as nat, (f2 - 1) as nat),
            _ => {},
        }
    }
}

/// Compiling a program made of one arithmetic expression and running it on
/// any machine gives the expression's value and leaves the machine as it was.
pub proof fn law_compiled_arithmetic_runs_to_its_value(n: SNode, st: VmState)
    requires
        arith_value(n) is Some,
        atom_count(n) <= 256,
    ensures
        compile_result(seq![n]) is Done,
        vm_halts(compile_result(seq![n])->Done_0, st),
        vm_outcome(compile_result(seq![n])->Done_0, st) == VmRun::Finished(
            st,
            Ok(SValue::Int(arith_value(n)->0)),
        ),
{
    let empty = SChunk { code: Seq::empty(), constants: Seq::empty() };
    lemma_arith_done(n, empty);
    let c1 = c_node(n, empty)->Done_0;
    assert(c_block(seq![n], empty) == CRes::Done(c1));
    let ch = emit(c1, op_byte(OpCode::Return));
    assert(compile_result(seq![n]) == CRes::Done(ch));
    assert(starts(c1.code, ch.code));
    assert(starts(c1.constants, ch.constants));
    lemma_arith_code(n, empty, ch, st, 1);
    let f0 = 1 + instruction_count(n);
    let v = arith_value(n)->0;
    lemma_op_byte(OpCode::Return);
    lemma_push_pop(st, SValue::Int(v));
    let ip = c1.code.len() as int;
    assert(ch.code[ip] == op_byte(OpCode::Return));
    assert(vm_step(ch, ip, push(st, SValue::Int(v))) == Step::Halt(st, Ok(SValue::Int(v))));
    assert(vm_run(ch, 0, st, f0) == VmRun::Finished(st, Ok(SValue::Int(v))));
    assert(vm_halts(ch, st));
    let fc = choose|fuel: nat| #[trigger] vm_run(ch, 0, st, fuel) is Finished;
    if fc <= f0 {
        lemma_vm_run_fuel(ch, 0, st, fc, f0);
    } else {
        lemma_vm_run_fuel(ch, 0, st, f0, fc);
    }
}

/// An arithmetic expression within the constant limit compiles.
proof fn lemma_arith_done(n: SNode, c: SChunk)
    requires
        arith_value(n) is Some,
    ensures
        c_node(n, c) is Done,
        starts(c.code, c_node(n, c)->Done_0.code),
        starts(c.constants, c_node(n, c)->Done_0.constants),
        c_node(n, c)->Done_0.constants.len() == c.constants.len() + atom_count(n),
    decreases n,
{
    match n {
        SNode::BinaryExpression { left, operator, right } => {
            lemma_arith_done(*left, c);
            let c1 = c_node(*left, c)->Done_0;
            lemma_arith_done(*right, c1);
            let c3 = c_node(*right, c1)->Done_0;
            assert(starts(c.code, c3.code));
            assert(starts(c.constants, c3.constants));
        },
        _ => {},
    }
}

} // verus!

verus! {

/// On a stack that ends in two integers, `x` below `y`, a comparison or an
/// arithmetic instruction replaces them by its result and goes on with the
/// next instruction, leaving the globals alone: `OpGreater` gives whether
/// `x > y`, `OpLess` whether `x < y`, `OpEqual` whether `x == y`, and `Add`,
/// `Subtract` and `Multiply` give `x + y`, `x - y` and `x * y` where that fits.
pub proof fn law_integer_instructions(ch: SChunk, ip: int, st: VmState, x: i32, y: i32)
    requires
        0 <= ip < ch.code.len(),
        st.stack.len() >= 2,
        st.stack[st.stack.len() - 2] == SValue::Int(x),
        st.stack[st.stack.len() - 1] == SValue::Int(y),
    ensures
        op_of_byte(ch.code[ip]) == Some(OpCode::OpGreater) ==> vm_step(ch, ip, st) == Step::Next(
            ip + 1,
            VmState {
                stack: st.stack.subrange(0, st.stack.len() - 2).push(SValue::Bool(x > y)),
                globals: st.globals,
            },
        ),
        op_of_byte(ch.code[ip]) == Some(OpCode::OpLess) ==> vm_step(ch, ip, st) == Step::Next(
            ip + 1,
            VmState {
                stack: st.stack.subrange(0, st.stack.len() - 2).push(SValue::Bool(x < y)),
                globals: st.globals,
            },
        ),
        op_of_byte(ch.code[ip]) == Some(OpCode::OpEqual) ==> vm_step(ch, ip, st) == Step::Next(
            ip + 1,
            VmState {
                stack: st.stack.subrange(0, st.stack.len() - 2).push(SValue::Bool(x == y)),
                globals: st.globals,
            },
        ),
        op_of_byte(ch.code[ip]) == Some(OpCode::Add) && i32::MIN <= x + y <= i32::MAX ==> vm_step(
            ch,
            ip,
            st,
        ) == Step::Next(
            ip + 1,
            VmState {
                stack: st.stack.subrange(0, st.stack.len() - 2).push(SValue::Int((x + y) as i32)),
                globals: st.globals,
            },
        ),
        op_of_byte(ch.code[ip]) == Some(OpCode::Subtract) && i32::MIN <= x - y <= i32::MAX
            ==> vm_step(ch, ip, st) == Step::Next(
            ip + 1,
            VmState {
                stack: st.stack.subrange(0, st.stack.len() - 2).push(SValue::Int((x - y) as i32)),
                globals: st.globals,
            },
        ),
        op_of_byte(ch.code[ip]) == Some(OpCode::Multiply) && i32::MIN <= x * y <= i32::MAX
            ==> vm_step(ch, ip, st) == Step::Next(
            ip + 1,
            VmState {
                stack: st.stack.subrange(0, st.stack.len() - 2).push(SValue::Int((x * y) as i32)),
                globals: st.globals,
            },
        ),
{
    assert(st.stack.drop_last().drop_last() =~= st.stack.subrange(0, st.stack.len() - 2));
}

/// Compiling `name = v; name` (a global defined and then read) and running it
/// on any machine gives `v`: the read pushes the global's value, not its name.
/// The machine ends with its stack as it was and `name` bound to `v`.
pub proof fn law_compiled_global_reads_back(name: Seq<char>, kind: Seq<char>, v: i32, st: VmState)
    ensures
        compile_result(
            seq![
                SNode::AssignStmt {
                    left: Box::new(SNode::Identifier { value: name }),
                    right: Box::new(SNode::Atomic { value: SValue::Int(v) }),
                    kind,
                },
                SNode::Identifier { value: name },
            ],
        ) is Done,
        vm_halts(
            compile_result(
                seq![
                    SNode::AssignStmt {
                        left: Box::new(SNode::Identifier { value: name }),
                        right: Box::new(SNode::Atomic { value: SValue::Int(v) }),
                        kind,
                    },
                    SNode::Identifier { value: name },
                ],
            )->Done_0,
            st,
        ),
        vm_outcome(
            compile_result(
                seq![
                    SNode::AssignStmt {
                        left: Box::new(SNode::Identifier { value: name }),
                        right: Box::new(SNode::Atomic { value: SValue::Int(v) }),
                        kind,
                    },
                    SNode::Identifier { value: name },
                ],
            )->Done_0,
            st,
        ) == VmRun::Finished(
            VmState { stack: st.stack, globals: st.globals.insert(name, SValue::Int(v)) },
            Ok(SValue::Int(v)),
        ),
{
    let assign = SNode::AssignStmt {
        left: Box::new(SNode::Identifier { value: name }),
        right: Box::new(SNode::Atomic { value: SValue::Int(v) }),
        kind,
    };
    let read = SNode::Identifier { value: name };
    let nodes = seq![assign, read];
    let empty = SChunk { code: Seq::empty(), constants: Seq::empty() };
    let c0 = crate::compiler::emit_with_constant(empty, SValue::Int(v), OpCode::Constant);
    let c1 = crate::compiler::emit_with_constant(c0, SValue::Str(name), OpCode::DefineGlobal);
    let c2 = crate::compiler::emit_with_constant(c1, SValue::Str(name), OpCode::GetGlobal);
    assert(c_node(SNode::Atomic { value: SValue::Int(v) }, empty) == CRes::Done(c0));
    assert(c_node(assign, empty) == CRes::Done(c1));
    assert(c_node(read, c1) == CRes::Done(c2));
    assert(crate::compiler::c_block_from(nodes, 1, c1) == CRes::Done(c2));
    assert(crate::compiler::c_block_from(nodes, 0, empty) == CRes::Done(c2));
    assert(c_block(nodes, empty) == CRes::Done(c2));
    let ch = emit(c2, op_byte(OpCode::Return));
    assert(compile_result(nodes) == CRes::Done(ch));
    lemma_op_byte(OpCode::Constant);
    lemma_op_byte(OpCode::DefineGlobal);
    lemma_op_byte(OpCode::GetGlobal);
    lemma_op_byte(OpCode::Return);
    assert(ch.code.len() == 7);
    assert(ch.code[0] == op_byte(OpCode::Constant));
    assert(ch.code[1] == 0u8);
    assert(ch.code[2] == op_byte(OpCode::DefineGlobal));
    assert(ch.code[3] == 1u8);
    assert(ch.code[4] == op_byte(OpCode::GetGlobal));
    assert(ch.code[5] == 2u8);
    assert(ch.code[6] == op_byte(OpCode::Return));
    assert(ch.constants == seq![SValue::Int(v), SValue::Str(name), SValue::Str(name)]);
    let s1 = push(st, SValue::Int(v));
    let s2 = VmState { stack: st.stack, globals: st.globals.insert(name, SValue::Int(v)) };
    let s3 = push(s2, SValue::Int(v));
    assert(vm_step(ch, 0, st) == Step::Next(2, s1));
    assert(s1.stack.drop_last() =~= st.stack);
    assert(vm_step(ch, 2, s1) == Step::Next(4, s2));
    assert(vm_step(ch, 4, s2) == Step::Next(6, s3));
    lemma_push_pop(s2, SValue::Int(v));
    assert(vm_step(ch, 6, s3) == Step::Halt(s2, Ok(SValue::Int(v))));
    assert(vm_run(ch, 0, st, 4) == VmRun::Finished(s2, Ok(SValue::Int(v)))) by {
        reveal_with_fuel(vm_run, 5);
    }
    assert(vm_halts(ch, st));
    let fc = choose|fuel: nat| #[trigger] vm_run(ch, 0, st, fuel) is Finished;
    if fc <= 4 {
        lemma_vm_run_fuel(ch, 0, st, fc, 4);
    } else {
        lemma_vm_run_fuel(ch, 0, st, 4, fc);
    }
}

} // verus!

verus! {

/// The value that compiling and running an arithmetic expression gives is
/// ordinary integer arithmetic on its operands: `a + b`, `a - b`, `a * b`
/// where the result fits, and the quotient for a division of a non-negative
/// integer by a positive one. With `law_compiled_arithmetic_runs_to_its_value`
/// this fixes what the compiled code computes.
pub proof fn law_arith_value_is_integer_arithmetic(a: i32, b: i32)
    ensures
        i32::MIN <= a + b <= i32::MAX ==> arith_value(
            SNode::BinaryExpression {
                left: Box::new(SNode::Atomic { value: SValue::Int(a) }),
                operator: crate::node::OperatorKind::Add,
                right: Box::new(SNode::Atomic { value: SValue::Int(b) }),
            },
        ) == Some((a + b) as i32),
        i32::MIN <= a - b <= i32::MAX ==> arith_value(
            SNode::BinaryExpression {
                left: Box::new(SNode::Atomic { value: SValue::Int(a) }),
                operator: crate::node::OperatorKind::Subtract,
                right: Box::new(SNode::Atomic { value: SValue::Int(b) }),
            },
        ) == Some((a - b) as i32),
        i32::MIN <= a * b <= i32::MAX ==> arith_value(
            SNode::BinaryExpression {
                left: Box::new(SNode::Atomic { value: SValue::Int(a) }),
                operator: crate::node::OperatorKind::Multiply,
                right: Box::new(SNode::Atomic { value: SValue::Int(b) }),
            },
        ) == Some((a * b) as i32),
        a >= 0 && b > 0 ==> arith_value(
            SNode::BinaryExpression {
                left: Box::new(SNode::Atomic { value: SValue::Int(a) }),
                operator: crate::node::OperatorKind::Divide,
                right: Box::new(SNode::Atomic { value: SValue::Int(b) }),
            },
        ) == Some((a / b) as i32),
{
    reveal_with_fuel(arith_value, 2);
    let l = SNode::Atomic { value: SValue::Int(a) };
    let r = SNode::Atomic { value: SValue::Int(b) };
    assert(arith_value(l) == Some(a));
    assert(arith_value(r) == Some(b));
}

} // verus!

verus! {

/// The global-variable instructions at `ip`, whose operand names the constant
/// `name`: `DefineGlobal` binds `name` to the value it pops; `GetGlobal`
/// pushes the value bound to `name` (an error where none is); `SetGlobal`
/// rebinds a bound `name` to the top value and leaves it on the stack.
pub proof fn law_global_instructions(ch: SChunk, ip: int, st: VmState, name: Seq<char>)
    requires
        0 <= ip,
        ip + 1 < ch.code.len(),
        (ch.code[ip + 1] as int) < ch.constants.len(),
        ch.constants[ch.code[ip + 1] as int] == SValue::Str(name),
    ensures
        op_of_byte(ch.code[ip]) == Some(OpCode::DefineGlobal) && st.stack.len() > 0 ==> vm_step(
            ch,
            ip,
            st,
        ) == Step::Next(
            ip + 2,
            VmState {
                stack: st.stack.subrange(0, st.stack.len() - 1),
                globals: st.globals.insert(name, st.stack[st.stack.len() - 1]),
            },
        ),
        op_of_byte(ch.code[ip]) == Some(OpCode::GetGlobal) && st.globals.contains_key(name)
            ==> vm_step(ch, ip, st) == Step::Next(
            ip + 2,
            VmState { stack: st.stack.push(st.globals[name]), globals: st.globals },
        ),
        op_of_byte(ch.code[ip]) == Some(OpCode::GetGlobal) && !st.globals.contains_key(name)
            ==> vm_step(ch, ip, st) == Step::Halt(
            st,
            Err("Undefined variable '"@ + name + "'."@),
        ),
        op_of_byte(ch.code[ip]) == Some(OpCode::SetGlobal) && st.stack.len() > 0
            && st.globals.contains_key(name) ==> vm_step(ch, ip, st) == Step::Next(
            ip + 2,
            VmState {
                stack: st.stack,
                globals: st.globals.insert(name, st.stack[st.stack.len() - 1]),
            },
        ),
{
    assert(st.stack.drop_last() =~= st.stack.subrange(0, st.stack.len() - 1));
}

} // verus!
