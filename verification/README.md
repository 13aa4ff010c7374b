# caie_code_rs

A verified core for an interpreter of CAIE-style pseudocode, written in
Verus. The library holds:

- `lexing` / `lexer`: what tokens a text stands for in a dialect, as spec
  functions, and the lexer proved to give exactly those tokens;
- `positions`: every token stands at the index of a character that is no
  blank (a line's end at its line break, `EOF` at the end of the text), the
  indices increase from token to token, and each token's line and column are
  counted from the text before that index;
- `token`, `config`: tokens, keyword and operator tables, and dialects;
- `ast`, `runtime`, `store`: programs, values, and the scopes, arrays and
  functions that values refer to;
- `ops`: the operators on values (`/` divides into a real, `DIV` and `MOD`
  divide integers rounding toward zero);
- `semantics`: the meaning of expressions and statements as functions on the
  interpreter's state, with a step budget;
- `interpreter` / `eval`: the interpreter, proved to follow `semantics`;
- `laws` / `scoping`: properties proved of the whole (reading after writing,
  operator relations, scoping of declarations, the shape of token lists);
- `error`, `text`, `cli`: errors and their reports, text helpers, and the
  decisions of the command line.

`app/` is the command-line program around the library.

Real numbers are kept as their IEEE-754 bit patterns: comparisons, negation
and truth are computed by the library; sums, differences, products and
quotients of reals are reported as a halt, and printed reals are handed out
as bit patterns for the program to write.
