# cc99

A front end for a C99-like language, with its contracts proved by Verus.

## Layout

- `src/preprocess/`: the translation phases before parsing. Phase 2 joins
  continued lines, phase 3 replaces comments, phase 4 runs the directives
  (`#define`, `#undef`, `#include`, the conditionals) and expands macros,
  phase 6 joins adjacent string literals. `preprocess` runs them in turn; its
  result is stated by `preprocess_spec`.
- `src/parse/`: the lexer (`lex_spec`), the constants (`literal`), and a
  recursive-descent parser. The grammar is written down as relations between
  a stretch of tokens and what it denotes: `syntax` for expressions and
  statements, `declarations` for specifiers, declarators, structs and
  declarations. Every parsing function ensures the relation of what it
  returns.
- `src/ast/`: the syntax tree, copies and comparisons of its parts, and the
  typing rules of the generator (ranks, casts, common types).
- `src/generator/`: the decisions of code generation that do not need LLVM:
  scopes and symbols, loop targets, which instruction a cast or an operator
  needs, which expressions can be assigned or subscripted, and the order in
  which a module is generated (every global declaration before any body).
- `src/utils/`: compile errors and their messages.
- `src/driver.rs`: command-line choices and the front end as one function.
- `app/`: the program: argument handling, files, JSON output, and the LLVM
  code generation, which calls into the library for every decision.
- `tests/`: tests of the library.

## Name-keyed tables

The macro table (`preprocess/macros.rs`), the symbol tables
(`generator/symbols.rs`) and the typedef map (`ast/typedefs.rs`) are vectors of
(name, value) pairs with a lookup specification, not `HashMap<String, _>`.
vstd's model of `HashMap` holds only for key types that obey its key model
(`obeys_key_model`), which it grants to primitive types and boxes of them;
for `String` it has to be assumed, and this crate makes no assumptions. With
the vectors, every lookup and insertion is proved against the table's
contents.

## What the parser's contracts say

Every parsing function ensures that what it returns is described by the
grammar relations (`syntax.rs`, `declarations.rs`). Success, and where the
parse stops, are promised for a large family of inputs, each described by a
spec function that gives the end of a well-formed stretch:

- expressions: chains of binary operators of every precedence, assignments
  and commas over postfix expressions of lone operands (identifiers and
  integers) with `++`, `--`, member accesses, subscripts, calls and casts to
  plain type names (`flat_expression_end`, `simple_postfix_end`);
- declarations: keyword specifiers, declarators with pointers, array
  lengths and initializers that are lone operands, parameter lists, and
  type names
  (`plain_declarators_end`, `plain_params_end`, `plain_type_name_end`);
- statements: blocks, `if`, `switch`, `while`, `do`, `for`, jumps, labels,
  `case` and expression statements whose expressions are lone operands, and
  local declarations (`plain_statement_end`);
- whole programs of such declarations and function definitions
  (`plain_program`).

Success is not promised for every token run the relations describe: the
relations admit some runs that the greedy parser reads otherwise. In
`int y = a as int * b;` the relations allow `(a as int) * b`, while the
parser, like a greedy grammar, takes `int *` as the cast's type and then stops
at `b`.
