//! Reducing an assertion to the formulas it is built from: the steps of an axiom.
use vstd::prelude::*;
use crate::node::{Node, SNode, OperatorKind, clone_node, displayable, display_node, node_right};
use crate::parser::{Parser, ParseError, SParseError, PRes, p_formula, outcome_is};
use crate::lang_lexer::{LangLexOutcome, lang_lex};
use crate::text::owned;

verus! {

/// One step of an axiom: the formula it records, and where it comes from.
#[derive(Debug)]
pub struct Step {
    pub index: usize,
    pub hypothesis: (usize, usize),
    pub reference: String,
    pub expression: String,
}

/// The model of a [`Step`].
pub struct SStep {
    pub index: usize,
    pub hypothesis: (usize, usize),
    pub reference: Seq<char>,
    pub expression: Seq<char>,
}

impl View for Step {
    type V = SStep;

    open spec fn view(&self) -> SStep {
        SStep {
            index: self.index,
            hypothesis: self.hypothesis,
            reference: self.reference@,
            expression: self.expression@,
        }
    }
}

impl Step {
    /// A step recording the display text of `node`, at index zero.
    pub fn new(node: Node) -> (res: Self)
        requires
            displayable(node@),
        ensures
            res@ == (SStep {
                index: 0,
                hypothesis: (0, 0),
                reference: Seq::empty(),
                expression: display_node(node@),
            }),
    {
        let index: usize = 0;
        let hypothesis = (0, 0);
        let reference = String::new();
        let expression = node.to_string();
        Self { index, hypothesis, reference, expression }
    }
}

/// The steps of an axiom on the model, and the index the next new step gets.
pub struct Steps {
    pub list: Seq<SStep>,
    pub next: int,
}

/// The first position of a step recording `e`, if any.
pub open spec fn first_with(list: Seq<SStep>, e: Seq<char>) -> Option<int>
    decreases list.len(),
{
    if list.len() == 0 {
        None
    } else {
        match first_with(list.drop_last(), e) {
            Some(i) => Some(i),
            None => if list.last().expression == e {
                Some(list.len() - 1)
            } else {
                None
            },
        }
    }
}

/// Adding a step for `e`: where a step already records `e`, nothing changes
/// and its position is the result; otherwise a new step is appended with the
/// next index, which is the result.
pub open spec fn s_add_step(s: Steps, e: Seq<char>) -> (Steps, int) {
    match first_with(s.list, e) {
        Some(i) => (s, i),
        None => (
            Steps {
                list: s.list.push(
                    SStep { index: s.next as usize, hypothesis: (0, 0), reference: Seq::empty(), expression: e },
                ),
                next: s.next + 1,
            },
            s.next,
        ),
    }
}

/// Whether adding a step for `e` does not overflow the index.
pub open spec fn add_ok(s: Steps, e: Seq<char>) -> bool {
    first_with(s.list, e) is Some || s.next < usize::MAX
}

/// Errors of reducing a formula.
#[derive(Debug)]
pub enum ReduceError {
    EmptyNode,
    Unimplemented,
}

impl ReduceError {
    /// The display text of the error: its name.
    pub fn to_string(&self) -> (res: String)
        ensures
            res@ == (match self {
                ReduceError::EmptyNode => "EmptyNode"@,
                ReduceError::Unimplemented => "Unimplemented"@,
            }),
    {
        match self {
            ReduceError::EmptyNode => owned("EmptyNode"),
            ReduceError::Unimplemented => owned("Unimplemented"),
        }
    }
}

/// Reducing a formula: `¬A` gives itself and `A`; a formula of two parts
/// joined by a connective or a quantifier (`A → B`, `A ∧ B`, `A ↔ B`, `x ∈ y`,
/// `x = y`, `∀x A`, `∃x A`, ...) gives its two parts; an identifier gives itself
/// twice; anything else is not reduced.
pub open spec fn s_reduce(n: SNode) -> Option<(SNode, SNode)> {
    match n {
        SNode::UnaryExpression { operator, right } => if operator == OperatorKind::Negation {
            Some((n, *right))
        } else {
            None
        },
        SNode::BinaryExpression { left, right, .. } => Some((*left, *right)),
        SNode::Identifier { .. } => Some((n, n)),
        _ => None,
    }
}

/// Reduces a formula (see [`s_reduce`]).
pub fn reduce(node: Node) -> (res: Result<(Node, Node), ReduceError>)
    ensures
        match s_reduce(node@) {
            Some((l, r)) => res matches Ok(p) && p.0@ == l && p.1@ == r,
            None => res matches Err(e) && e == ReduceError::Unimplemented,
        },
{
    match node {
        Node::UnaryExpression { .. } => {
            match node.operator() {
                OperatorKind::Negation => {
                    let right = clone_node(node.right().unwrap());
                    Ok((clone_node(&node), right))
                },
                _ => Err(ReduceError::Unimplemented),
            }
        },
        Node::BinaryExpression { left, right, .. } => Ok((*left, *right)),
        Node::Identifier { .. } => Ok((clone_node(&node), clone_node(&node))),
        _ => Err(ReduceError::Unimplemented),
    }
}

} // verus!

verus! {

/// The step list of a vector of steps and the next index.
pub open spec fn steps_model(v: Seq<Step>, next: usize) -> Steps {
    Steps { list: v.map_values(|st: Step| st@), next: next as int }
}

/// The outcome of solving on the model.
pub enum SolveRes {
    Done(Steps),
    Failed(Steps, SParseError),
    Panic,
    Stall,
}

/// Whether the text of a step lexes as a formula, with the same lexer as the
/// assertion.
pub open spec fn step_lexes(e: Seq<char>) -> bool {
    lang_lex(e, 0) is Done
}

/// The tokens of a step's text.
pub open spec fn step_tokens(e: Seq<char>) -> Seq<crate::lexer::SToken> {
    match lang_lex(e, 0) {
        LangLexOutcome::Done(t) => t,
        _ => Seq::empty(),
    }
}

/// Reducing the steps from the `i`-th on: each step's text is lexed and parsed
/// again as the assertion was (a text the lexer refuses is a panic),
/// reduced, and both parts are added as steps, until no step is left.
pub open spec fn s_solve_steps(s: Steps, i: int, fuel: nat) -> SolveRes
    decreases fuel,
{
    if i >= s.list.len() || i < 0 {
        SolveRes::Done(s)
    } else if fuel == 0 {
        SolveRes::Stall
    } else if !step_lexes(s.list[i].expression) {
        SolveRes::Panic
    } else {
        match p_formula(step_tokens(s.list[i].expression), 0) {
            PRes::Parsed(n, _) => match s_reduce(n) {
                Some((l, r)) => if !displayable(l) || !displayable(r) || !add_ok(s, display_node(l)) {
                    SolveRes::Panic
                } else {
                    let s1 = s_add_step(s, display_node(l)).0;
                    if !add_ok(s1, display_node(r)) {
                        SolveRes::Panic
                    } else {
                        s_solve_steps(s_add_step(s1, display_node(r)).0, i + 1, (fuel - 1) as nat)
                    }
                },
                None => SolveRes::Panic,
            },
            PRes::Failed(e, _) => SolveRes::Failed(s, e),
            PRes::Panic => SolveRes::Panic,
        }
    }
}

/// Solving an axiom whose assertion is `input`: the assertion is parsed and
/// added as a step, then the steps are reduced in turn.
pub open spec fn s_solve(s: Steps, input: Seq<char>, fuel: nat) -> SolveRes {
    match lang_lex(input, 0) {
        LangLexOutcome::Done(toks) => match p_formula(toks, 0) {
            PRes::Parsed(n, _) => if !displayable(n) || !add_ok(s, display_node(n)) {
                SolveRes::Panic
            } else {
                s_solve_steps(s_add_step(s, display_node(n)).0, 0, fuel)
            },
            PRes::Failed(e, _) => SolveRes::Failed(s, e),
            PRes::Panic => SolveRes::Panic,
        },
        _ => SolveRes::Panic,
    }
}

/// Whether solving ends, with steps or a parse error.
pub open spec fn solve_ends(r: SolveRes) -> bool {
    r is Done || r is Failed
}

/// An axiom: its name, its hypotheses, its assertion, and the steps found so far.
pub struct Axiom {
    pub(crate) index: usize,
    pub(crate) name: String,
    pub(crate) hypothesises: Vec<(String, String)>,
    pub steps: Vec<Step>,
    pub(crate) initial_assertion: String,
}

impl Axiom {
    /// The steps and the index of the next new one.
    pub closed spec fn model(&self) -> Steps {
        steps_model(self.steps@, self.index)
    }

    /// The assertion.
    pub closed spec fn assertion(&self) -> Seq<char> {
        self.initial_assertion@
    }

    /// The name.
    pub closed spec fn named(&self) -> Seq<char> {
        self.name@
    }

    /// An axiom named `name` asserting `initial_assertion`, with no steps yet.
    pub fn new(name: String, initial_assertion: String) -> (res: Self)
        ensures
            res.model() == (Steps { list: Seq::empty(), next: 0 }),
            res.assertion() == initial_assertion@,
            res.named() == name@,
    {
        let res = Self { index: 0, name, hypothesises: Vec::new(), steps: Vec::new(), initial_assertion };
        assert(res.model().list =~= Seq::<SStep>::empty());
        res
    }

    /// Adds a step for the display text of `node` (see [`s_add_step`]), and
    /// returns the position of the step that records it.
    pub fn add_step(&mut self, node: Node) -> (res: usize)
        requires
            displayable(node@),
            add_ok(old(self).model(), display_node(node@)),
        ensures
            (final(self).model(), res as int) == s_add_step(old(self).model(), display_node(node@)),
            final(self).assertion() == old(self).assertion(),
            final(self).named() == old(self).named(),
    {
        let ghost list = self.model().list;
        let ref_index = self.index;
        let hypothesis = (0, 0);
        let reference = String::new();
        let expression = node.to_string();
        let mut i: usize = 0;
        while i < self.steps.len()
            invariant
                i <= self.steps.len(),
                list == self.model().list,
                list.len() == self.steps@.len(),
                expression@ == display_node(node@),
                forall|j: int| 0 <= j < i ==> list[j].expression != expression@,
                first_with(list.subrange(0, i as int), expression@) is None,
            decreases self.steps.len() - i,
        {
            assert(list.subrange(0, i as int + 1).drop_last() =~= list.subrange(0, i as int));
            if self.steps[i].expression == expression {
                proof {
                    lemma_first_with_prefix(list, expression@, i as int);
                }
                return i;
            }
            i += 1;
        }
        assert(list.subrange(0, i as int) =~= list);
        let ghost old_steps = self.steps@;
        self.steps.push(Step { index: self.index, hypothesis, reference, expression });
        self.index += 1;
        assert(self.model().list =~= list.push(
            SStep { index: ref_index, hypothesis: (0, 0), reference: Seq::empty(), expression: display_node(node@) },
        ));
        ref_index
    }
}

proof fn lemma_first_with_prefix(list: Seq<SStep>, e: Seq<char>, i: int)
    requires
        0 <= i < list.len(),
        list[i].expression == e,
        first_with(list.subrange(0, i), e) is None,
    ensures
        first_with(list, e) == Some(i),
    decreases list.len(),
{
    if i < list.len() - 1 {
        assert(list.drop_last().subrange(0, i) =~= list.subrange(0, i));
        lemma_first_with_prefix(list.drop_last(), e, i);
    } else {
        assert(list.drop_last() =~= list.subrange(0, i));
    }
}

} // verus!

verus! {

/// Whether solving an axiom ends (with some bound on the number of steps).
pub open spec fn solvable(a: &Axiom) -> bool {
    exists|f: nat| solve_ends(s_solve(a.model(), a.assertion(), f))
}

/// The outcome of solving an axiom.
pub open spec fn solution(a: &Axiom) -> SolveRes {
    s_solve(a.model(), a.assertion(), choose|f: nat| solve_ends(s_solve(a.model(), a.assertion(), f)))
}

impl Axiom {
    /// Parses the assertion, adds it as a step, then reduces the steps in turn
    /// (see [`s_solve`]), stopping at the first parse error. Only axioms whose
    /// solving ends without a panic are accepted.
    pub fn solve(&mut self) -> (res: Result<(), ParseError>)
        requires
            solvable(old(self)),
        ensures
            final(self).assertion() == old(self).assertion(),
            final(self).named() == old(self).named(),
            match solution(old(self)) {
                SolveRes::Done(st) => res is Ok && final(self).model() == st,
                SolveRes::Failed(st, e) => res matches Err(x) && x@ == e && final(self).model() == st,
                _ => false,
            },
    {
        let ghost fuel = choose|f: nat| solve_ends(s_solve(old(self).model(), old(self).assertion(), f));
        let ghost toks = match lang_lex(self.assertion(), 0) {
            LangLexOutcome::Done(t) => t,
            _ => Seq::empty(),
        };
        let mut parser = Parser::new_mm(self.initial_assertion.as_str());
        assert(parser.toks() == toks && parser.pos() == 0);
        let node = match parser.parse() {
            Ok(n) => n,
            Err(e) => {
                assert(p_formula(toks, 0) matches PRes::Failed(err, _) && e@ == err);
                assert(s_solve(old(self).model(), old(self).assertion(), fuel) == SolveRes::Failed(self.model(), e@));
                return Err(e);
            },
        };
        self.add_step(clone_node(&node));
        let ghost goal = s_solve(old(self).model(), old(self).assertion(), fuel);
        let ghost mut fl: nat = fuel;
        let mut i: usize = 0;
        while i < self.steps.len()
            invariant
                solve_ends(goal),
                goal == solution(old(self)),
                s_solve_steps(self.model(), i as int, fl) == goal,
                self.assertion() == old(self).assertion(),
                self.named() == old(self).named(),
            decreases fl,
        {
            assert(self.model().list.len() == self.steps@.len());
            let ghost e = self.model().list[i as int].expression;
            assert(self.steps@[i as int].expression@ == e);
            assert(step_lexes(e));
            let mut parser = Parser::new_mm(self.steps[i].expression.as_str());
            assert(parser.toks() == step_tokens(e));
            let node = match parser.parse() {
                Ok(n) => n,
                Err(err) => {
                    assert(s_solve_steps(self.model(), i as int, fl) == SolveRes::Failed(self.model(), err@));
                    return Err(err);
                },
            };
            let (reduce_left, reduce_right) = reduce(node).unwrap();
            self.add_step(reduce_left);
            self.add_step(reduce_right);
            i += 1;
            proof {
                fl = (fl - 1) as nat;
            }
        }
        Ok(())
    }
}

} // verus!

verus! {

/// Whether steps are well formed: the next index is their number, each step's
/// index is its position, and no two steps record the same formula.
pub open spec fn steps_wf(s: Steps) -> bool {
    &&& s.next == s.list.len()
    &&& forall|i: int| 0 <= i < s.list.len() ==> #[trigger] s.list[i].index == i
    &&& forall|i: int, j: int|
        0 <= i < j < s.list.len() ==> #[trigger] s.list[i].expression != #[trigger] s.list[j].expression
}

proof fn lemma_first_with_found(list: Seq<SStep>, e: Seq<char>)
    ensures
        match first_with(list, e) {
            Some(i) => 0 <= i < list.len() && list[i].expression == e,
            None => forall|j: int| 0 <= j < list.len() ==> #[trigger] list[j].expression != e,
        },
    decreases list.len(),
{
    if list.len() > 0 {
        lemma_first_with_found(list.drop_last(), e);
        if first_with(list, e) is None {
            assert forall|j: int| 0 <= j < list.len() implies #[trigger] list[j].expression != e by {
                if j < list.len() - 1 {
                    assert(list.drop_last()[j] == list[j]);
                }
            }
        }
    }
}

/// An axiom starts with well-formed steps, and adding a step keeps them well
/// formed and records the formula at the position it returns.
pub proof fn law_add_step_keeps_steps(s: Steps, e: Seq<char>)
    requires
        steps_wf(s),
        add_ok(s, e),
    ensures
        steps_wf(Steps { list: Seq::empty(), next: 0 }),
        steps_wf(s_add_step(s, e).0),
        0 <= s_add_step(s, e).1 < s_add_step(s, e).0.list.len(),
        s_add_step(s, e).0.list[s_add_step(s, e).1].expression == e,
        s_add_step(s, e).0.list.subrange(0, s.list.len() as int) == s.list,
{
    lemma_first_with_found(s.list, e);
    let r = s_add_step(s, e).0;
    assert(r.list.subrange(0, s.list.len() as int) =~= s.list);
}

/// Adding a step for a formula that a step already records changes nothing:
/// adding the same formula twice is adding it once.
pub proof fn law_add_step_idempotent(s: Steps, e: Seq<char>)
    requires
        steps_wf(s),
        add_ok(s, e),
    ensures
        s_add_step(s_add_step(s, e).0, e) == s_add_step(s, e),
{
    lemma_first_with_found(s.list, e);
    let s1 = s_add_step(s, e).0;
    lemma_first_with_found(s1.list, e);
    match first_with(s.list, e) {
        Some(i) => {},
        None => {
            let k = first_with(s1.list, e)->0;
            assert(k == s.list.len()) by {
                if k < s.list.len() {
                    assert(s1.list[k] == s.list[k]);
                }
            }
        },
    }
}

/// Solving keeps the steps well formed, whether it ends with steps or with a
/// parse error.
pub proof fn law_solve_keeps_steps(s: Steps, i: int, fuel: nat)
    requires
        steps_wf(s),
    ensures
        match s_solve_steps(s, i, fuel) {
            SolveRes::Done(t) => steps_wf(t),
            SolveRes::Failed(t, _) => steps_wf(t),
            _ => true,
        },
    decreases fuel,
{
    if 0 <= i < s.list.len() && fuel > 0 {
        match p_formula(step_tokens(s.list[i].expression), 0) {
            PRes::Parsed(n, _) => match s_reduce(n) {
                Some((l, r)) => {
                    if displayable(l) && displayable(r) && add_ok(s, display_node(l)) {
                        law_add_step_keeps_steps(s, display_node(l));
                        let s1 = s_add_step(s, display_node(l)).0;
                        if add_ok(s1, display_node(r)) {
                            law_add_step_keeps_steps(s1, display_node(r));
                            law_solve_keeps_steps(
                                s_add_step(s1, display_node(r)).0,
                                i + 1,
                                (fuel - 1) as nat,
                            );
                        }
                    }
                },
                None => {},
            },
            _ => {},
        }
    }
}

} // verus!

verus! {

/// Whether the step at position `k` reduces within the steps: its text
/// lexes, parses and reduces, and both parts are recorded by some step.
pub open spec fn reduces_within(t: Steps, k: int) -> bool {
    step_lexes(t.list[k].expression) && match p_formula(step_tokens(t.list[k].expression), 0) {
        PRes::Parsed(n, _) => match s_reduce(n) {
            Some((l, r)) => first_with(t.list, display_node(l)) is Some && first_with(
                t.list,
                display_node(r),
            ) is Some,
            None => false,
        },
        _ => false,
    }
}

proof fn lemma_first_with_extends(a: Seq<SStep>, b: Seq<SStep>, e: Seq<char>)
    requires
        crate::vm::starts(a, b),
        first_with(a, e) is Some,
    ensures
        first_with(b, e) is Some,
{
    lemma_first_with_found(a, e);
    lemma_first_with_found(b, e);
    let i = first_with(a, e)->0;
    assert(b[i].expression == e);
}

proof fn lemma_add_step_extends(s: Steps, e: Seq<char>)
    ensures
        crate::vm::starts(s.list, s_add_step(s, e).0.list),
        first_with(s_add_step(s, e).0.list, e) is Some,
{
    lemma_first_with_found(s.list, e);
    let r = s_add_step(s, e).0;
    lemma_first_with_found(r.list, e);
    if first_with(s.list, e) is None {
        assert(r.list[s.list.len() as int].expression == e);
    }
}

proof fn lemma_solve_extends(s: Steps, i: int, fuel: nat)
    ensures
        s_solve_steps(s, i, fuel) matches SolveRes::Done(t) ==> crate::vm::starts(s.list, t.list),
    decreases fuel,
{
    if 0 <= i < s.list.len() && fuel > 0 {
        match p_formula(step_tokens(s.list[i].expression), 0) {
            PRes::Parsed(n, _) => match s_reduce(n) {
                Some((l, r)) => {
                    let s1 = s_add_step(s, display_node(l)).0;
                    let s2 = s_add_step(s1, display_node(r)).0;
                    lemma_add_step_extends(s, display_node(l));
                    lemma_add_step_extends(s1, display_node(r));
                    lemma_solve_extends(s2, i + 1, (fuel - 1) as nat);
                },
                None => {},
            },
            _ => {},
        }
    }
}

/// Reducing the steps from position `i` on leaves them closed under
/// reduction from there: every such step's text parses and reduces, and both
/// parts are recorded by steps.
pub proof fn law_solve_steps_closed(s: Steps, i: int, fuel: nat)
    requires
        0 <= i,
    ensures
        s_solve_steps(s, i, fuel) matches SolveRes::Done(t) ==> forall|k: int|
            i <= k < t.list.len() ==> #[trigger] reduces_within(t, k),
    decreases fuel,
{
    if i < s.list.len() && fuel > 0 {
        match p_formula(step_tokens(s.list[i].expression), 0) {
            PRes::Parsed(n, _) => match s_reduce(n) {
                Some((l, r)) => {
                    if displayable(l) && displayable(r) && add_ok(s, display_node(l)) {
                        let s1 = s_add_step(s, display_node(l)).0;
                        if add_ok(s1, display_node(r)) {
                            let s2 = s_add_step(s1, display_node(r)).0;
                            lemma_add_step_extends(s, display_node(l));
                            lemma_add_step_extends(s1, display_node(r));
                            lemma_first_with_extends(s1.list, s2.list, display_node(l));
                            law_solve_steps_closed(s2, i + 1, (fuel - 1) as nat);
                            lemma_solve_extends(s2, i + 1, (fuel - 1) as nat);
                            if let SolveRes::Done(t) = s_solve_steps(s, i, fuel) {
                                assert(s_solve_steps(s2, i + 1, (fuel - 1) as nat) == SolveRes::Done(t));
                                lemma_first_with_extends(s2.list, t.list, display_node(l));
                                lemma_first_with_extends(s2.list, t.list, display_node(r));
                                assert(t.list[i].expression == s.list[i].expression);
                                assert(reduces_within(t, i));
                            }
                        }
                    }
                },
                None => {},
            },
            _ => {},
        }
    }
}

/// Solving an axiom that ends with steps leaves every step closed under
/// reduction: its text parses and reduces, and both parts are recorded by steps.
pub proof fn law_solve_closed_under_reduce(s: Steps, input: Seq<char>, fuel: nat)
    ensures
        s_solve(s, input, fuel) matches SolveRes::Done(t) ==> forall|k: int|
            0 <= k < t.list.len() ==> #[trigger] reduces_within(t, k),
{
    match lang_lex(input, 0) {
        LangLexOutcome::Done(toks) => match p_formula(toks, 0) {
            PRes::Parsed(n, _) => if displayable(n) && add_ok(s, display_node(n)) {
                law_solve_steps_closed(s_add_step(s, display_node(n)).0, 0, fuel);
            },
            _ => {},
        },
        _ => {},
    }
}

} // verus!
