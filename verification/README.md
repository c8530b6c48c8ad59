# vanilla_parser

A parser, semantic analyzer and stack-machine code generator for Vanilla, a
small imperative language:

```
programa -> main { lista_declaracion }
declaracion -> tipo identificador ; | lista_sentencias
sentencia -> if | while | do-while | cin id ; | cout expresion ; | asignacion
```

The library in `src/` is written in Verus and verified: each pass is proved
against a functional model of what it computes.

- `token`, `structures`: tokens, the syntax tree and their models.
- `parse_model`, `parse*`: the recursive-descent parser with error
  recovery; `parse_laws` proves that it only moves forward in the tokens,
  and `parse_total` that it never stops the program on a token list that
  ends in `}` and whose number literals read as values.
- `analyze_model`, `analyze`: the symbol table, type checking and constant
  folding; the `f32` operations are handed in as a closure.
  `analyze_types` proves that type checking gives each expression the
  type of its kind, `analyze_floats` that programs without floats never
  reach the float operations, and `analyze_stores` that each variable ends
  with the value of its last assignment in the order of the walk.
- `codegen`: the code generator; `code_laws` proves that it has code for
  every operator of a tree the parser built, and `code_labels` that each
  label it creates is defined once and every jump targets one of them.
- `grammar`, `grammar_program`: the grammar's derivations, and the proof
  that the parser reads every program the grammar derives without error,
  building the tree the derivation denotes.
- `render`: the text of a tree as the command line prints it.
- `tree`, `values`, `text`: tree walks, values and integer text.

`app/` holds the command line front end: reading files, the scanner, JSON
output, the printing itself and the floating-point arithmetic.
