# sugar

The front end and the value layer of the Sugar language, written in Verus:
every function in `src/` carries a contract that Verus proves.

- `lexer`: tokens and the lexer, which turns source text into tokens.
- `parser`: the definitions of a program (accessors, structs, functions),
  types and the cells that hold them, and expressions.
  - `expr_grammar` states, as spec functions, what parsing an expression at
    a position gives: a parsed expression and the position after it, an
    error, or that the parse cannot end (the tokens run out in the middle,
    or the reading goes round without end).
  - `parse_set`, `parse_expr`, `parse_atom`, `parse_struct` and
    `parse_group` parse expressions, each function proved to give exactly
    what the grammar says.
  - `patterns` reads the patterns that variables are declared and assigned
    with, declares their names and assigns values to them.
  - `stmt` holds statements and parses expression statements, `return`,
    assignments and `let` declarations.
  - `stmt_grammar` states what parsing a statement gives: blocks, while
    loops, chains of `if` / `else if` / `else`, each block in a scope of its
    own; `parse_stmt` parses statements and function bodies against it,
    and `parse_program` parses a whole program, definitions and bodies.
  - `parser_error` holds the errors and writes the messages that report
    them on the source.
- `interpreter`: the stack of bytes that values live in, how literals are
  written there and read back, and the unary and binary operators on
  values.
  - `run` runs a parsed program: `run_spec` and the functions it builds
    on state what evaluating an expression and executing a statement do
    to the stacks, the variables of each call and the printed text, and
    `interpret` runs the entry point `main` against them.  Integer and
    boolean values, variables, `if` / `else`, `while`, calls of the
    program's functions and the built-ins `print_string`, `print_i32`
    and `panic` are covered; a run is bounded by a number of steps.
- `full_result`, `option_result_utils`: a result with soft and hard errors.

`app/` is the command-line program around the library: it reads files,
prints tokens, definitions and errors, and runs programs, printing what
they print.
