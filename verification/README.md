# fox_lang

FoxLang is a small programming language and a theorem-prover core in one:
formulas in the MetaMath style (`⊢ (𝜑 → (𝜓 → 𝜑))`) are parsed and reduced
to the formulas they are built from, and programs of the language
(`let x = 1 + 2; print(x);`) are parsed, evaluated, or compiled to a
stack machine.

The library under `src/` is written in Verus; every function in it carries a
contract that Verus proves, except the small wrappers around the standard
library marked `#[verifier::external_body]` (character classes, pushing
a character, and the quoting of a string as `{:?}` prints it), whose
contracts are assumed. Integer parsing and printing, and the `{:?}` text of
nodes, values, tokens and map literals (`debug`), are verified against
their specs.

- `lexer`, `lang_lexer`, `metamath`, `metamath_lexer`: the lexers, each
  specified by a function from the input characters to the tokens.
- `parser`: the formula parser; `p_formula` is its model.
- `lang_parser`: the parser of the language; `lp_program` is its model.
- `node`, `value`, `scope`, `internal_types`: the syntax tree, runtime
  values, declarations and their accessors.
- `semantics`, `ast`: the evaluator and its model `s_eval_node`.
- `cut`: the steps of an axiom and how solving adds them; `reduce` splits a
  negation into itself and its operand, and any formula of two parts
  (a connective, a relation or a quantifier) into its parts.
- `debug`: the `{:?}` text of the syntax tree and the order of map keys.
- `bytecode`, `compiler`, `vm`: the instruction set, the compiler
  (`c_node`) and the stack machine (`vm_step`, `vm_run`).
- `fir`, `lower`: the intermediate representation and the lowering of
  functions to it (`l_expr`, `l_stmt`, `l_function`).

Proved laws include that compiling an arithmetic expression and running the
chunk gives the expression's value (`vm::law_compiled_arithmetic_runs_to_its_value`),
that the steps of an axiom stay numbered by position and free of duplicates
(`cut::law_add_step_keeps_steps`, `cut::law_solve_keeps_steps`), and that a
variable reads back the value assigned to it
(`semantics::law_assignment_then_read`), that solving leaves every step
closed under reduction (`cut::law_solve_closed_under_reduce`), and that
lexing only gets stuck at a string literal that is never closed
(`lang_lexer::law_lang_lex_stuck_only_at_unclosed_quote`), and that the
outcome of a program does not depend on the fuel given to its model
(`semantics::law_eval_node_more_fuel`, `ast::law_program_run_any_fuel`).

`app/` holds the read-eval-print loop and the printing helpers
(disassembler, step listing), which do I/O.
