# lib_ruby_parser

A recursive-descent parser for a subset of Ruby, and a small precedence-climbing parser
of arithmetic expressions, written in Verus and verified against their specifications.

Layout of `src/`:

- `loc.rs`: byte ranges of the source and how they join.
- `token.rs`, `lexer/`: token kinds and the lexer. `lexer/rules.rs` states how the input
  is cut into tokens (with a stack of open braces for `#{...}` inside literals), and
  proves that the tokens come in order within the input; `lexer/mod.rs` does it and is
  proved to follow those rules.
- `nodes.rs`: syntax trees in a flat encoding, and how they print
  (`s(:send, s(:int, "1"), "+", ...)`).
- `parser/`: the Ruby parser. `grammar.rs` states the grammar as specification
  functions from tokens and a position to trees; the other files hold the functions that
  parse, each proved to give exactly what its rule states. `combinators.rs` holds
  sequences, choices and repetitions of single-token rules, with laws about them.
- `node.rs`, `calc.rs`: trees of arithmetic expressions, their values, and their parser.
