//! The intermediate representation that functions are lowered to.
use vstd::prelude::*;
use crate::text::owned;

verus! {

/// An operand of an instruction.
#[derive(Debug, PartialEq)]
pub enum FirValue {
    /// A numbered local.
    Local(u32),
    /// Immediate constant values.
    ConstInt(i32),
    /// A 64-bit float constant, held as its bits (`f64::to_bits`).
    ConstFloat(u64),
    ConstBool(bool),
    ConstString(String),
}

/// The model of a [`FirValue`].
pub enum SFirValue {
    Local(u32),
    ConstInt(i32),
    ConstFloat(u64),
    ConstBool(bool),
    ConstString(Seq<char>),
}

impl View for FirValue {
    type V = SFirValue;

    open spec fn view(&self) -> SFirValue {
        match self {
            FirValue::Local(i) => SFirValue::Local(*i),
            FirValue::ConstInt(i) => SFirValue::ConstInt(*i),
            FirValue::ConstFloat(b) => SFirValue::ConstFloat(*b),
            FirValue::ConstBool(b) => SFirValue::ConstBool(*b),
            FirValue::ConstString(s) => SFirValue::ConstString(s@),
        }
    }
}

impl Clone for FirValue {
    fn clone(&self) -> (res: Self)
        ensures
            res@ == self@,
    {
        match self {
            FirValue::Local(i) => FirValue::Local(*i),
            FirValue::ConstInt(i) => FirValue::ConstInt(*i),
            FirValue::ConstFloat(b) => FirValue::ConstFloat(*b),
            FirValue::ConstBool(b) => FirValue::ConstBool(*b),
            FirValue::ConstString(s) => FirValue::ConstString(s.clone()),
        }
    }
}

/// One instruction.
#[derive(Debug, PartialEq)]
pub enum FirInstr {
    Add(FirValue, FirValue),
    Sub(FirValue, FirValue),
    Mul(FirValue, FirValue),
    Div(FirValue, FirValue),
    Mod(FirValue, FirValue),
    Eq(FirValue, FirValue),
    Lt(FirValue, FirValue),
    Gt(FirValue, FirValue),
    LoadLocal(String),
    StoreLocal(String, FirValue),
    Call { func: String, args: Vec<FirValue> },
    Return(Option<FirValue>),
    Jump(String),
    JumpIf { cond: FirValue, then_label: String, else_label: Option<String> },
    Nop,
}

/// The model of a [`FirInstr`].
pub enum SFirInstr {
    Add(SFirValue, SFirValue),
    Sub(SFirValue, SFirValue),
    Mul(SFirValue, SFirValue),
    Div(SFirValue, SFirValue),
    Mod(SFirValue, SFirValue),
    Eq(SFirValue, SFirValue),
    Lt(SFirValue, SFirValue),
    Gt(SFirValue, SFirValue),
    LoadLocal(Seq<char>),
    StoreLocal(Seq<char>, SFirValue),
    Call { func: Seq<char>, args: Seq<SFirValue> },
    Return(Option<SFirValue>),
    Jump(Seq<char>),
    JumpIf { cond: SFirValue, then_label: Seq<char>, else_label: Option<Seq<char>> },
    Nop,
}

/// The models of a list of operands.
pub open spec fn fir_values_view(s: Seq<FirValue>) -> Seq<SFirValue> {
    s.map_values(|v: FirValue| v@)
}

impl View for FirInstr {
    type V = SFirInstr;

    open spec fn view(&self) -> SFirInstr {
        match self {
            FirInstr::Add(a, b) => SFirInstr::Add(a@, b@),
            FirInstr::Sub(a, b) => SFirInstr::Sub(a@, b@),
            FirInstr::Mul(a, b) => SFirInstr::Mul(a@, b@),
            FirInstr::Div(a, b) => SFirInstr::Div(a@, b@),
            FirInstr::Mod(a, b) => SFirInstr::Mod(a@, b@),
            FirInstr::Eq(a, b) => SFirInstr::Eq(a@, b@),
            FirInstr::Lt(a, b) => SFirInstr::Lt(a@, b@),
            FirInstr::Gt(a, b) => SFirInstr::Gt(a@, b@),
            FirInstr::LoadLocal(s) => SFirInstr::LoadLocal(s@),
            FirInstr::StoreLocal(s, v) => SFirInstr::StoreLocal(s@, v@),
            FirInstr::Call { func, args } => SFirInstr::Call {
                func: func@,
                args: fir_values_view(args@),
            },
            FirInstr::Return(v) => SFirInstr::Return(
                match v {
                    Some(x) => Some(x@),
                    None => None,
                },
            ),
            FirInstr::Jump(s) => SFirInstr::Jump(s@),
            FirInstr::JumpIf { cond, then_label, else_label } => SFirInstr::JumpIf {
                cond: cond@,
                then_label: then_label@,
                else_label: match else_label {
                    Some(l) => Some(l@),
                    None => None,
                },
            },
            FirInstr::Nop => SFirInstr::Nop,
        }
    }
}

/// A labelled block of instructions.
#[derive(Debug)]
pub struct FirBlock {
    pub label: String,
    pub instrs: Vec<FirInstr>,
}

/// The model of a [`FirBlock`].
pub struct SFirBlock {
    pub label: Seq<char>,
    pub instrs: Seq<SFirInstr>,
}

impl View for FirBlock {
    type V = SFirBlock;

    open spec fn view(&self) -> SFirBlock {
        SFirBlock { label: self.label@, instrs: self.instrs@.map_values(|i: FirInstr| i@) }
    }
}

/// A function: its name, parameters, locals and blocks.
#[derive(Debug)]
pub struct FirFunction {
    pub name: String,
    pub params: Vec<String>,
    pub locals: Vec<String>,
    pub blocks: Vec<FirBlock>,
}

/// The model of a [`FirFunction`].
pub struct SFirFunction {
    pub name: Seq<char>,
    pub params: Seq<Seq<char>>,
    pub locals: Seq<Seq<char>>,
    pub blocks: Seq<SFirBlock>,
}

/// The models of a list of strings.
pub open spec fn strings_view(s: Seq<String>) -> Seq<Seq<char>> {
    s.map_values(|x: String| x@)
}

impl View for FirFunction {
    type V = SFirFunction;

    open spec fn view(&self) -> SFirFunction {
        SFirFunction {
            name: self.name@,
            params: strings_view(self.params@),
            locals: strings_view(self.locals@),
            blocks: self.blocks@.map_values(|b: FirBlock| b@),
        }
    }
}

/// A new function with an empty `entry` block.
pub open spec fn new_function(name: Seq<char>, params: Seq<Seq<char>>) -> SFirFunction {
    SFirFunction {
        name,
        params,
        locals: Seq::empty(),
        blocks: seq![SFirBlock { label: "entry"@, instrs: Seq::empty() }],
    }
}

/// Appending an instruction to the last block; a function without blocks is
/// left as it is.
pub open spec fn emit_instr(f: SFirFunction, i: SFirInstr) -> SFirFunction {
    if f.blocks.len() == 0 {
        f
    } else {
        let last = f.blocks.last();
        SFirFunction {
            blocks: f.blocks.update(
                f.blocks.len() - 1,
                SFirBlock { label: last.label, instrs: last.instrs.push(i) },
            ),
            ..f
        }
    }
}

impl FirFunction {
    /// A function named `name` with the given parameters, no locals, and an
    /// empty `entry` block.
    pub fn new(name: String, params: Vec<String>) -> (res: Self)
        ensures
            res@ == new_function(name@, strings_view(params@)),
    {
        let entry = FirBlock { label: owned("entry"), instrs: Vec::new() };
        let mut blocks: Vec<FirBlock> = Vec::new();
        blocks.push(entry);
        let res = Self { name, params, locals: Vec::new(), blocks };
        assert(res@.locals =~= Seq::<Seq<char>>::empty());
        assert(res@.blocks[0].instrs =~= Seq::<SFirInstr>::empty());
        assert(res@.blocks =~= seq![SFirBlock { label: "entry"@, instrs: Seq::empty() }]);
        res
    }

    /// Appends an instruction to the last block (see [`emit_instr`]).
    pub fn emit(&mut self, instr: FirInstr)
        ensures
            final(self)@ == emit_instr(old(self)@, instr@),
    {
        let ghost before = self@;
        if self.blocks.len() > 0 {
            let mut block = match self.blocks.pop() {
                Some(b) => b,
                None => vstd::pervasive::unreached(),
            };
            let ghost b0 = block@;
            block.instrs.push(instr);
            assert(block@.instrs =~= b0.instrs.push(instr@));
            self.blocks.push(block);
            assert(self@.blocks =~= emit_instr(before, instr@).blocks);
        }
    }
}

/// A module: its functions.
#[derive(Debug)]
pub struct FirModule {
    pub functions: Vec<FirFunction>,
}

impl View for FirModule {
    type V = Seq<SFirFunction>;

    open spec fn view(&self) -> Seq<SFirFunction> {
        self.functions@.map_values(|f: FirFunction| f@)
    }
}

impl FirModule {
    /// A module with no functions.
    pub fn new() -> (res: Self)
        ensures
            res@ == Seq::<SFirFunction>::empty(),
    {
        let res = Self { functions: Vec::new() };
        assert(res@ =~= Seq::<SFirFunction>::empty());
        res
    }

    /// Appends a function.
    pub fn add_function(&mut self, f: FirFunction)
        ensures
            final(self)@ == old(self)@.push(f@),
    {
        let ghost before = self@;
        self.functions.push(f);
        assert(self@ =~= before.push(f@));
    }
}

} // verus!
