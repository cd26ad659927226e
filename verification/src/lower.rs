//! Numbering of the local variables met while lowering a function.
use vstd::prelude::*;
use crate::fir::{FirFunction, FirInstr, FirValue, SFirFunction, SFirInstr, SFirValue, emit_instr, fir_values_view, new_function};
use crate::node::{Node, SNode, OperatorKind, view_nodes, lemma_view_nodes};
use crate::text::owned;
use crate::value::{Value, SValue};

verus! {

/// The map a list of bindings stands for: a later binding of a name hides an
/// earlier one.
pub open spec fn locals_map(s: Seq<(String, u32)>) -> Map<Seq<char>, u32>
    decreases s.len(),
{
    if s.len() == 0 {
        Map::empty()
    } else {
        locals_map(s.drop_last()).insert(s.last().0@, s.last().1)
    }
}

/// Whether `i` is the last position of the list that binds `k`.
pub open spec fn last_local(s: Seq<(String, u32)>, k: Seq<char>, i: int) -> bool {
    &&& 0 <= i < s.len()
    &&& s[i].0@ == k
    &&& forall|j: int| i < j < s.len() ==> s[j].0@ != k
}

proof fn lemma_locals_lookup(s: Seq<(String, u32)>, k: Seq<char>, i: int)
    requires
        last_local(s, k, i),
    ensures
        locals_map(s).contains_key(k),
        locals_map(s)[k] == s[i].1,
    decreases s.len(),
{
    if i < s.len() - 1 {
        lemma_locals_lookup(s.drop_last(), k, i);
    }
}

proof fn lemma_locals_absent(s: Seq<(String, u32)>, k: Seq<char>)
    requires
        forall|j: int| 0 <= j < s.len() ==> s[j].0@ != k,
    ensures
        !locals_map(s).contains_key(k),
    decreases s.len(),
{
    if s.len() > 0 {
        lemma_locals_absent(s.drop_last(), k);
    }
}

proof fn lemma_locals_push(s: Seq<(String, u32)>, e: (String, u32))
    ensures
        locals_map(s.push(e)) == locals_map(s).insert(e.0@, e.1),
{
    assert(s.push(e).drop_last() =~= s);
}

/// The model of a lowering context: the next number to hand out and the
/// number of each named local.
pub struct SLowering {
    pub next_local: nat,
    pub locals: Map<Seq<char>, u32>,
}

/// Hands out consecutive numbers to the locals of a function.
pub struct LoweringContext {
    next_local: u32,
    locals: Vec<(String, u32)>,
}

impl View for LoweringContext {
    type V = SLowering;

    closed spec fn view(&self) -> SLowering {
        SLowering { next_local: self.next_local as nat, locals: locals_map(self.locals@) }
    }
}

impl LoweringContext {
    /// A context that has numbered nothing yet.
    pub fn new() -> (res: Self)
        ensures
            res@ == (SLowering { next_local: 0, locals: Map::empty() }),
    {
        let res = LoweringContext { next_local: 0, locals: Vec::new() };
        assert(locals_map(res.locals@) =~= Map::<Seq<char>, u32>::empty());
        res
    }

    /// Numbers a new local `name` with the next number and returns it; a later
    /// local of the same name hides the earlier one. The count overflows after
    /// `u32::MAX` locals: that call is left out.
    pub fn new_local(&mut self, name: &str) -> (res: u32)
        requires
            old(self)@.next_local < u32::MAX,
        ensures
            res == old(self)@.next_local,
            final(self)@.next_local == old(self)@.next_local + 1,
            final(self)@.locals == old(self)@.locals.insert(name@, res),
    {
        let id = self.next_local;
        self.next_local = self.next_local + 1;
        let entry = (owned(name), id);
        proof {
            lemma_locals_push(self.locals@, entry);
        }
        self.locals.push(entry);
        id
    }

    /// The number of the local `name`, if it has one.
    pub fn get_local(&self, name: &str) -> (res: Option<u32>)
        ensures
            res == (if self@.locals.contains_key(name@) {
                Some(self@.locals[name@])
            } else {
                None
            }),
    {
        let key = owned(name);
        let mut i = self.locals.len();
        while i > 0
            invariant
                i <= self.locals.len(),
                key@ == name@,
                forall|j: int| i <= j < self.locals@.len() ==> self.locals@[j].0@ != name@,
            decreases i,
        {
            if self.locals[i - 1].0 == key {
                proof {
                    lemma_locals_lookup(self.locals@, name@, i - 1);
                }
                return Some(self.locals[i - 1].1);
            }
            i -= 1;
        }
        proof {
            lemma_locals_absent(self.locals@, name@);
        }
        None
    }
}

} // verus!

verus! {

/// The name a node binds: an identifier's value or a typed identifier's name.
pub open spec fn ident_name_of(n: SNode) -> Option<Seq<char>> {
    match n {
        SNode::Identifier { value } => Some(value),
        SNode::Ident { name, .. } => Some(name),
        _ => None,
    }
}

/// The name a node binds, if it is an identifier.
fn ident_name(node: &Node) -> (res: Option<String>)
    ensures
        match ident_name_of(node@) {
            Some(s) => res matches Some(r) && r@ == s,
            None => res is None,
        },
{
    match node {
        Node::Identifier { value } => Some(value.clone()),
        Node::Ident { name, .. } => Some(name.clone()),
        _ => None,
    }
}

/// The name a node binds; the node must be an identifier (`what` says what
/// it names).
fn expect_ident_name(node: &Node, what: &str) -> (res: String)
    requires
        ident_name_of(node@) is Some,
    ensures
        Some(res@) == ident_name_of(node@),
{
    match ident_name(node) {
        Some(s) => s,
        None => vstd::pervasive::unreached(),
    }
}

/// What lowering gives: a result with the context and function after it, or a panic.
pub enum Lowered<T> {
    Done(T, SLowering, SFirFunction),
    Panic,
}

/// Numbering a new local `name` with the next number; `None` once the numbers
/// run out.
pub open spec fn fresh(ctx: SLowering, name: Seq<char>) -> Option<(u32, SLowering)> {
    if ctx.next_local < u32::MAX {
        Some(
            (
                ctx.next_local as u32,
                SLowering {
                    next_local: ctx.next_local + 1,
                    locals: ctx.locals.insert(name, ctx.next_local as u32),
                },
            ),
        )
    } else {
        None
    }
}

/// The constant a literal value lowers to (binaries as integers, null as zero).
pub open spec fn fir_constant(v: SValue) -> SFirValue {
    match v {
        SValue::Int(i) => SFirValue::ConstInt(i),
        SValue::Bool(b) => SFirValue::ConstBool(b),
        SValue::Str(s) => SFirValue::ConstString(s),
        SValue::Bin(u) => SFirValue::ConstInt(u as i32),
        SValue::Null => SFirValue::ConstInt(0),
    }
}

/// The instruction of a binary operator; operators without one give `Nop`.
pub open spec fn binary_instr(op: OperatorKind, l: SFirValue, r: SFirValue) -> SFirInstr {
    match op {
        OperatorKind::Add => SFirInstr::Add(l, r),
        OperatorKind::Subtract => SFirInstr::Sub(l, r),
        OperatorKind::Multiply => SFirInstr::Mul(l, r),
        OperatorKind::Divide => SFirInstr::Div(l, r),
        OperatorKind::Modulo => SFirInstr::Mod(l, r),
        OperatorKind::IsEqual => SFirInstr::Eq(l, r),
        OperatorKind::LessThan => SFirInstr::Lt(l, r),
        OperatorKind::GreaterThan => SFirInstr::Gt(l, r),
        _ => SFirInstr::Nop,
    }
}

/// Lowering an expression: constants and locals become operands; a binary
/// expression emits its instruction and gives a new temporary local; a call
/// lowers its arguments in turn, emits the call and gives a new temporary
/// local; anything else gives the constant zero. Reading a local that was
/// never numbered panics.
pub open spec fn l_expr(n: SNode, ctx: SLowering, f: SFirFunction) -> Lowered<SFirValue>
    decreases n, 0int,
{
    match n {
        SNode::Atomic { value } => Lowered::Done(fir_constant(value), ctx, f),
        SNode::Identifier { value } => if ctx.locals.contains_key(value) {
            Lowered::Done(SFirValue::Local(ctx.locals[value]), ctx, f)
        } else {
            Lowered::Panic
        },
        SNode::Ident { name, .. } => if ctx.locals.contains_key(name) {
            Lowered::Done(SFirValue::Local(ctx.locals[name]), ctx, f)
        } else {
            Lowered::Panic
        },
        SNode::BinaryExpression { left, operator, right } => match l_expr(*left, ctx, f) {
            Lowered::Done(lhs, c1, f1) => match l_expr(*right, c1, f1) {
                Lowered::Done(rhs, c2, f2) => match fresh(c2, "_tmp"@) {
                    Some((tmp, c3)) => Lowered::Done(
                        SFirValue::Local(tmp),
                        c3,
                        emit_instr(f2, binary_instr(operator, lhs, rhs)),
                    ),
                    None => Lowered::Panic,
                },
                Lowered::Panic => Lowered::Panic,
            },
            Lowered::Panic => Lowered::Panic,
        },
        SNode::Call { name, arguments, .. } => match l_args(arguments, 0, ctx, f, Seq::empty()) {
            Lowered::Done(args, c1, f1) => match fresh(c1, "_call_tmp"@) {
                Some((tmp, c2)) => Lowered::Done(
                    SFirValue::Local(tmp),
                    c2,
                    emit_instr(f1, SFirInstr::Call { func: name, args }),
                ),
                None => Lowered::Panic,
            },
            Lowered::Panic => Lowered::Panic,
        },
        _ => Lowered::Done(SFirValue::ConstInt(0), ctx, f),
    }
}

/// Lowering the arguments of a call from position `i` on, after `acc`.
pub open spec fn l_args(
    args: Seq<SNode>,
    i: int,
    ctx: SLowering,
    f: SFirFunction,
    acc: Seq<SFirValue>,
) -> Lowered<Seq<SFirValue>>
    decreases args, args.len() - i,
{
    if i < 0 || i >= args.len() {
        Lowered::Done(acc, ctx, f)
    } else {
        match l_expr(args[i], ctx, f) {
            Lowered::Done(v, c1, f1) => l_args(args, i + 1, c1, f1, acc.push(v)),
            Lowered::Panic => Lowered::Panic,
        }
    }
}

/// Lowering a statement: an assignment to a name lowers its value, numbers
/// the name if it has no number yet and stores the value; a return lowers its
/// value and returns it; a call is lowered as an expression; a conditional
/// lowers its condition, emits a conditional jump (with an `else` label only
/// where there is an alternative) and lowers both branches in turn. Anything
/// else panics.
pub open spec fn l_stmt(n: SNode, ctx: SLowering, f: SFirFunction) -> Lowered<()>
    decreases n, 0int,
{
    match n {
        SNode::AssignStmt { left, right, .. } => match ident_name_of(*left) {
            Some(var) => match l_expr(*right, ctx, f) {
                Lowered::Done(val, c1, f1) => {
                    let c2 = if c1.locals.contains_key(var) {
                        Some(c1)
                    } else {
                        match fresh(c1, var) {
                            Some((_, c)) => Some(c),
                            None => None,
                        }
                    };
                    match c2 {
                        Some(c) => Lowered::Done((), c, emit_instr(f1, SFirInstr::StoreLocal(var, val))),
                        None => Lowered::Panic,
                    }
                },
                Lowered::Panic => Lowered::Panic,
            },
            None => Lowered::Panic,
        },
        SNode::Return { value } => match l_expr(*value, ctx, f) {
            Lowered::Done(v, c1, f1) => Lowered::Done((), c1, emit_instr(f1, SFirInstr::Return(Some(v)))),
            Lowered::Panic => Lowered::Panic,
        },
        SNode::Call { .. } => match l_expr(n, ctx, f) {
            Lowered::Done(_, c1, f1) => Lowered::Done((), c1, f1),
            Lowered::Panic => Lowered::Panic,
        },
        SNode::Conditional { condition, consequence, alternative } => match l_expr(*condition, ctx, f) {
            Lowered::Done(cv, c1, f1) => {
                let f2 = emit_instr(
                    f1,
                    SFirInstr::JumpIf {
                        cond: cv,
                        then_label: "then"@,
                        else_label: if alternative.len() == 0 {
                            None
                        } else {
                            Some("else"@)
                        },
                    },
                );
                match l_stmts(consequence, 0, c1, f2) {
                    Lowered::Done(_, c3, f3) => l_stmts(alternative, 0, c3, f3),
                    Lowered::Panic => Lowered::Panic,
                }
            },
            Lowered::Panic => Lowered::Panic,
        },
        _ => Lowered::Panic,
    }
}

/// Lowering the statements of a block from position `i` on.
pub open spec fn l_stmts(nodes: Seq<SNode>, i: int, ctx: SLowering, f: SFirFunction) -> Lowered<()>
    decreases nodes, nodes.len() - i,
{
    if i < 0 || i >= nodes.len() {
        Lowered::Done((), ctx, f)
    } else {
        match l_stmt(nodes[i], ctx, f) {
            Lowered::Done(_, c1, f1) => l_stmts(nodes, i + 1, c1, f1),
            Lowered::Panic => Lowered::Panic,
        }
    }
}

/// Lowers an expression onto `func` (see [`l_expr`]).
pub fn lower_expr(expr: &Node, func: &mut FirFunction, ctx: &mut LoweringContext) -> (res: FirValue)
    requires
        !(l_expr(expr@, old(ctx)@, old(func)@) is Panic),
    ensures
        match l_expr(expr@, old(ctx)@, old(func)@) {
            Lowered::Done(v, c, f) => res@ == v && final(ctx)@ == c && final(func)@ == f,
            Lowered::Panic => false,
        },
    decreases expr@,
{
    proof {
        reveal_with_fuel(crate::node::view_node, 2);
    }
    match expr {
        Node::Atomic { value } => match value {
            Value::Int(n) => FirValue::ConstInt(*n),
            Value::Bool(b) => FirValue::ConstBool(*b),
            Value::Str(s) => FirValue::ConstString(s.clone()),
            Value::Bin(u) => FirValue::ConstInt(#[verifier::truncate] (*u as i32)),
            _ => FirValue::ConstInt(0),
        },
        Node::Identifier { value } => match ctx.get_local(value.as_str()) {
            Some(idx) => FirValue::Local(idx),
            None => vstd::pervasive::unreached(),
        },
        Node::Ident { name, .. } => match ctx.get_local(name.as_str()) {
            Some(idx) => FirValue::Local(idx),
            None => vstd::pervasive::unreached(),
        },
        Node::BinaryExpression { left, operator, right } => {
            let lhs = lower_expr(left, func, ctx);
            let rhs = lower_expr(right, func, ctx);
            let tmp = ctx.new_local("_tmp");
            let instr = match operator {
                OperatorKind::Add => FirInstr::Add(lhs.clone(), rhs.clone()),
                OperatorKind::Subtract => FirInstr::Sub(lhs.clone(), rhs.clone()),
                OperatorKind::Multiply => FirInstr::Mul(lhs.clone(), rhs.clone()),
                OperatorKind::Divide => FirInstr::Div(lhs.clone(), rhs.clone()),
                OperatorKind::Modulo => FirInstr::Mod(lhs.clone(), rhs.clone()),
                OperatorKind::IsEqual => FirInstr::Eq(lhs.clone(), rhs.clone()),
                OperatorKind::LessThan => FirInstr::Lt(lhs.clone(), rhs.clone()),
                OperatorKind::GreaterThan => FirInstr::Gt(lhs.clone(), rhs.clone()),
                _ => FirInstr::Nop,
            };
            func.emit(instr);
            FirValue::Local(tmp)
        },
        Node::Call { name, arguments, .. } => {
            let ghost vs = view_nodes(arguments@);
            let ghost c0 = ctx@;
            let ghost f0 = func@;
            proof {
                lemma_view_nodes(arguments@);
            }
            let mut args: Vec<FirValue> = Vec::new();
            assert(fir_values_view(args@) =~= Seq::<SFirValue>::empty());
            let mut i: usize = 0;
            while i < arguments.len()
                invariant
                    i <= arguments.len(),
                    vs == view_nodes(arguments@),
                    vs.len() == arguments.len(),
                    forall|j: int| 0 <= j < arguments.len() ==> #[trigger] vs[j] == arguments@[j]@,
                    expr@ == (SNode::Call { name: name@, arguments: vs, returns: expr@->Call_returns }),
                    l_args(vs, 0, c0, f0, Seq::empty()) == l_args(vs, i as int, ctx@, func@, fir_values_view(args@)),
                    !(l_args(vs, 0, c0, f0, Seq::empty()) is Panic),
                decreases arguments.len() - i,
            {
                assert(vs[i as int] == arguments@[i as int]@);
                proof {
                    assert(decreases_to!(expr@ => expr@->Call_arguments));
                    assert(decreases_to!(vs => vs[i as int]));
                }
                let ghost before = args@;
                let v = lower_expr(&arguments[i], func, ctx);
                args.push(v);
                assert(fir_values_view(args@) =~= fir_values_view(before).push(v@));
                i += 1;
            }
            let call = FirInstr::Call { func: name.clone(), args };
            func.emit(call);
            FirValue::Local(ctx.new_local("_call_tmp"))
        },
        _ => FirValue::ConstInt(0),
    }
}

} // verus!

verus! {

/// Lowers a statement onto `func` (see [`l_stmt`]).
pub fn lower_stmt(stmt: &Node, func: &mut FirFunction, ctx: &mut LoweringContext)
    requires
        !(l_stmt(stmt@, old(ctx)@, old(func)@) is Panic),
    ensures
        match l_stmt(stmt@, old(ctx)@, old(func)@) {
            Lowered::Done(_, c, f) => final(ctx)@ == c && final(func)@ == f,
            Lowered::Panic => false,
        },
    decreases stmt@,
{
    proof {
        reveal_with_fuel(crate::node::view_node, 2);
    }
    match stmt {
        Node::AssignStmt { left, right, .. } => {
            match ident_name(left) {
                Some(var) => {
                    let val = lower_expr(right, func, ctx);
                    if ctx.get_local(var.as_str()).is_none() {
                        ctx.new_local(var.as_str());
                    }
                    func.emit(FirInstr::StoreLocal(var, val));
                },
                None => vstd::pervasive::unreached(),
            }
        },
        Node::Return { value } => {
            let ret_val = Some(lower_expr(value, func, ctx));
            func.emit(FirInstr::Return(ret_val));
        },
        Node::Call { .. } => {
            let _ = lower_expr(stmt, func, ctx);
        },
        Node::Conditional { condition, consequence, alternative } => {
            let ghost target = l_stmt(stmt@, old(ctx)@, old(func)@);
            let cond_val = lower_expr(condition, func, ctx);
            let then_label = owned("then");
            let else_label = if alternative.len() == 0 {
                None
            } else {
                Some(owned("else"))
            };
            func.emit(FirInstr::JumpIf { cond: cond_val, then_label, else_label });
            let ghost vc = view_nodes(consequence@);
            let ghost va = view_nodes(alternative@);
            proof {
                lemma_view_nodes(consequence@);
                lemma_view_nodes(alternative@);
            }
            let mut i: usize = 0;
            while i < consequence.len()
                invariant
                    i <= consequence.len(),
                    vc == view_nodes(consequence@),
                    vc.len() == consequence.len(),
                    forall|j: int| 0 <= j < consequence.len() ==> #[trigger] vc[j] == consequence@[j]@,
                    stmt@->Conditional_consequence == vc,
                    stmt@->Conditional_alternative == va,
                    stmt@ is Conditional,
                    !(target is Panic),
                    match l_stmts(vc, i as int, ctx@, func@) {
                        Lowered::Done(_, c3, f3) => l_stmts(va, 0, c3, f3) == target,
                        Lowered::Panic => target is Panic,
                    },
                decreases consequence.len() - i,
            {
                assert(vc[i as int] == consequence@[i as int]@);
                proof {
                    assert(decreases_to!(stmt@ => stmt@->Conditional_consequence));
                    assert(decreases_to!(vc => vc[i as int]));
                }
                lower_stmt(&consequence[i], func, ctx);
                i += 1;
            }
            if alternative.len() != 0 {
                let mut j: usize = 0;
                while j < alternative.len()
                    invariant
                        j <= alternative.len(),
                        va == view_nodes(alternative@),
                        va.len() == alternative.len(),
                        forall|k: int| 0 <= k < alternative.len() ==> #[trigger] va[k] == alternative@[k]@,
                        stmt@->Conditional_alternative == va,
                        stmt@ is Conditional,
                        !(target is Panic),
                        l_stmts(va, j as int, ctx@, func@) == target,
                    decreases alternative.len() - j,
                {
                    assert(va[j as int] == alternative@[j as int]@);
                    proof {
                        assert(decreases_to!(stmt@ => stmt@->Conditional_alternative));
                        assert(decreases_to!(va => va[j as int]));
                    }
                    lower_stmt(&alternative[j], func, ctx);
                    j += 1;
                }
            }
        },
        _ => vstd::pervasive::unreached(),
    }
}

} // verus!

verus! {

/// Whether every node of a list binds a name.
pub open spec fn all_idents(args: Seq<SNode>) -> bool {
    forall|i: int| 0 <= i < args.len() ==> #[trigger] ident_name_of(args[i]) is Some
}

/// The names the nodes of a list bind.
pub open spec fn param_names(args: Seq<SNode>) -> Seq<Seq<char>> {
    args.map_values(|a: SNode| ident_name_of(a)->Some_0)
}

/// Numbering the parameters in turn; `None` once the numbers run out.
pub open spec fn declare_params(params: Seq<Seq<char>>, ctx: SLowering) -> Option<SLowering>
    decreases params.len(),
{
    if params.len() == 0 {
        Some(ctx)
    } else {
        match declare_params(params.drop_last(), ctx) {
            Some(c) => match fresh(c, params.last()) {
                Some((_, c2)) => Some(c2),
                None => None,
            },
            None => None,
        }
    }
}

proof fn lemma_declare_prefix(params: Seq<Seq<char>>, ctx: SLowering, i: int)
    requires
        declare_params(params, ctx) is Some,
        0 <= i <= params.len(),
    ensures
        declare_params(params.subrange(0, i), ctx) is Some,
    decreases params.len(),
{
    if i < params.len() {
        assert(params.drop_last().subrange(0, i) =~= params.subrange(0, i));
        lemma_declare_prefix(params.drop_last(), ctx, i);
    } else {
        assert(params.subrange(0, i) =~= params);
    }
}

/// Lowering a function declaration: its name and parameters must all be
/// identifiers; the parameters are numbered first, then the body is lowered
/// into the function's `entry` block. `None` where lowering panics: a
/// node that is no declaration, a name or parameter that is no identifier,
/// or a body that cannot be lowered.
pub open spec fn l_function(n: SNode) -> Option<SFirFunction> {
    match n {
        SNode::FunctionDecl { name, arguments, body, .. } => match ident_name_of(*name) {
            Some(fname) => if !all_idents(arguments) {
                None
            } else {
                let params = param_names(arguments);
                match declare_params(params, SLowering { next_local: 0, locals: Map::empty() }) {
                    Some(ctx) => match l_stmts(body, 0, ctx, new_function(fname, params)) {
                        Lowered::Done(_, _, f) => Some(f),
                        Lowered::Panic => None,
                    },
                    None => None,
                }
            },
            None => None,
        },
        _ => None,
    }
}

/// Lowers a function declaration (see [`l_function`]).
pub fn lower_function(node: &Node) -> (res: FirFunction)
    requires
        l_function(node@) is Some,
    ensures
        l_function(node@) == Some(res@),
{
    proof {
        reveal_with_fuel(crate::node::view_node, 2);
    }
    match node {
        Node::FunctionDecl { name, arguments, body, .. } => {
            let func_name = expect_ident_name(name, "function name");
            let ghost va = view_nodes(arguments@);
            proof {
                lemma_view_nodes(arguments@);
            }
            let mut params: Vec<String> = Vec::new();
            let mut i: usize = 0;
            while i < arguments.len()
                invariant
                    i <= arguments.len(),
                    va == view_nodes(arguments@),
                    va.len() == arguments.len(),
                    forall|j: int| 0 <= j < arguments.len() ==> #[trigger] va[j] == arguments@[j]@,
                    all_idents(va),
                    crate::fir::strings_view(params@) == param_names(va).subrange(0, i as int),
                decreases arguments.len() - i,
            {
                assert(va[i as int] == arguments@[i as int]@);
                assert(ident_name_of(va[i as int]) is Some);
                let ghost before = params@;
                let p = expect_ident_name(&arguments[i], "function parameter");
                let ghost pv = p@;
                assert(pv == param_names(va)[i as int]);
                params.push(p);
                assert(crate::fir::strings_view(params@) =~= crate::fir::strings_view(before).push(pv));
                i += 1;
                assert(crate::fir::strings_view(params@) =~= param_names(va).subrange(0, i as int));
            }
            assert(param_names(va).subrange(0, i as int) =~= param_names(va));
            let ghost ps = param_names(va);
            let mut func = FirFunction::new(func_name, params);
            let mut ctx = LoweringContext::new();
            let ghost c0 = ctx@;
            let mut k: usize = 0;
            while k < func.params.len()
                invariant
                    k <= func.params.len(),
                    crate::fir::strings_view(func.params@) == ps,
                    ps.len() == func.params.len(),
                    func@ == new_function(func_name@, ps),
                    c0 == (SLowering { next_local: 0, locals: Map::empty() }),
                    declare_params(ps, c0) is Some,
                    declare_params(ps.subrange(0, k as int), c0) == Some(ctx@),
                decreases func.params.len() - k,
            {
                proof {
                    lemma_declare_prefix(ps, c0, k + 1);
                    assert(ps.subrange(0, k + 1).drop_last() =~= ps.subrange(0, k as int));
                    assert(ps[k as int] == func.params@[k as int]@);
                }
                ctx.new_local(func.params[k].as_str());
                k += 1;
            }
            assert(ps.subrange(0, k as int) =~= ps);
            let ghost vb = view_nodes(body@);
            let ghost f0 = func@;
            let ghost c1 = ctx@;
            proof {
                lemma_view_nodes(body@);
            }
            let mut j: usize = 0;
            while j < body.len()
                invariant
                    j <= body.len(),
                    vb == view_nodes(body@),
                    vb.len() == body.len(),
                    forall|m: int| 0 <= m < body.len() ==> #[trigger] vb[m] == body@[m]@,
                    !(l_stmts(vb, 0, c1, f0) is Panic),
                    l_stmts(vb, 0, c1, f0) == l_stmts(vb, j as int, ctx@, func@),
                decreases body.len() - j,
            {
                assert(vb[j as int] == body@[j as int]@);
                lower_stmt(&body[j], &mut func, &mut ctx);
                j += 1;
            }
            func
        },
        _ => vstd::pervasive::unreached(),
    }
}

} // verus!

verus! {

/// The last instruction a lowering emitted into the last block, if any.
pub open spec fn last_emitted(r: Lowered<SFirValue>) -> Option<SFirInstr> {
    match r {
        Lowered::Done(_, _, f) => if f.blocks.len() > 0 && f.blocks.last().instrs.len() > 0 {
            Some(f.blocks.last().instrs.last())
        } else {
            None
        },
        Lowered::Panic => None,
    }
}

/// Lowering `l op r` emits the instruction of `op` with the value of the left
/// operand first and that of the right operand second, where `lhs` and `rhs`
/// are what lowering `l`, then `r`, gives: `Sub(lhs, rhs)` for a subtraction,
/// `Div` and `Mod` likewise, `Lt(lhs, rhs)` for `<` and `Gt(lhs, rhs)` for `>`.
pub proof fn law_lowered_binary_keeps_operand_order(
    left: SNode,
    op: OperatorKind,
    right: SNode,
    ctx: SLowering,
    f: SFirFunction,
    lhs: SFirValue,
    c1: SLowering,
    f1: SFirFunction,
    rhs: SFirValue,
    c2: SLowering,
    f2: SFirFunction,
)
    requires
        l_expr(left, ctx, f) == Lowered::Done(lhs, c1, f1),
        l_expr(right, c1, f1) == Lowered::Done(rhs, c2, f2),
        f2.blocks.len() > 0,
        c2.next_local < u32::MAX,
    ensures
        op == OperatorKind::Add ==> last_emitted(
            l_expr(SNode::BinaryExpression { left: Box::new(left), operator: op, right: Box::new(right) }, ctx, f),
        ) == Some(SFirInstr::Add(lhs, rhs)),
        op == OperatorKind::Subtract ==> last_emitted(
            l_expr(SNode::BinaryExpression { left: Box::new(left), operator: op, right: Box::new(right) }, ctx, f),
        ) == Some(SFirInstr::Sub(lhs, rhs)),
        op == OperatorKind::Multiply ==> last_emitted(
            l_expr(SNode::BinaryExpression { left: Box::new(left), operator: op, right: Box::new(right) }, ctx, f),
        ) == Some(SFirInstr::Mul(lhs, rhs)),
        op == OperatorKind::Divide ==> last_emitted(
            l_expr(SNode::BinaryExpression { left: Box::new(left), operator: op, right: Box::new(right) }, ctx, f),
        ) == Some(SFirInstr::Div(lhs, rhs)),
        op == OperatorKind::Modulo ==> last_emitted(
            l_expr(SNode::BinaryExpression { left: Box::new(left), operator: op, right: Box::new(right) }, ctx, f),
        ) == Some(SFirInstr::Mod(lhs, rhs)),
        op == OperatorKind::IsEqual ==> last_emitted(
            l_expr(SNode::BinaryExpression { left: Box::new(left), operator: op, right: Box::new(right) }, ctx, f),
        ) == Some(SFirInstr::Eq(lhs, rhs)),
        op == OperatorKind::LessThan ==> last_emitted(
            l_expr(SNode::BinaryExpression { left: Box::new(left), operator: op, right: Box::new(right) }, ctx, f),
        ) == Some(SFirInstr::Lt(lhs, rhs)),
        op == OperatorKind::GreaterThan ==> last_emitted(
            l_expr(SNode::BinaryExpression { left: Box::new(left), operator: op, right: Box::new(right) }, ctx, f),
        ) == Some(SFirInstr::Gt(lhs, rhs)),
{
}

} // verus!
